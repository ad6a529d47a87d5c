//! Starting a process inside its own systemd scope.
//!
//! The child is forked but held back before it executes anything. Its process
//! id is put into a scope, and only then a byte lets it go: so every process
//! that the game ever starts belongs to the scope.

use vstd::prelude::*;

use crate::text::chars::same;
use crate::text::concat::{cat2, cat3, cat4, cat5};
use crate::text::number::{decimal, decimal_text};

verus! {

/// Longest wait for a systemd job, in seconds.
pub const JOB_WAIT_TIMEOUT_SECS: u64 = 10;

/// The byte that lets the child go; any other one means that it must not.
pub const GATE_RELEASE_BYTE: u8 = 1;

/// The byte that tells the child to give up.
pub const GATE_ABANDON_BYTE: u8 = 0;

/// Whether the child may execute, by the byte it received.
pub fn gate_opens(byte: u8) -> (opens: bool)
    ensures
        opens == (byte == GATE_RELEASE_BYTE),
{
    byte == GATE_RELEASE_BYTE
}

/// Name of the scope of a game.
pub fn unit_name(game_id: u32) -> (name: String)
    ensures
        name@ == "reina_game_"@ + decimal(game_id as nat) + ".scope"@,
{
    cat3("reina_game_", decimal_text(game_id as u64).as_str(), ".scope")
}

/// Description of the scope of a game.
pub fn unit_description(game_id: u32) -> (text: String)
    ensures
        text@ == "ReinaManager 游戏进程 (game_id="@ + decimal(game_id as nat) + ")"@,
{
    cat3("ReinaManager 游戏进程 (game_id=", decimal_text(game_id as u64).as_str(), ")")
}

/// A process id from the four bytes that the child reported, lowest first.
pub open spec fn pid_value(bytes: Seq<u8>) -> int {
    bytes[0] + 256 * bytes[1] + 65_536 * bytes[2] + 16_777_216 * bytes[3]
}

/// Reads the process id that the child reported.
pub fn reported_pid(bytes: [u8; 4]) -> (pid: u32)
    ensures
        pid == pid_value(bytes@),
{
    bytes[0] as u32 + 256 * (bytes[1] as u32) + 65_536 * (bytes[2] as u32) + 16_777_216 * (
    bytes[3] as u32)
}

/// What a signal about a finished job says.
#[derive(Clone, Debug)]
pub struct JobSignal {
    pub job: String,
    pub result: String,
}

/// What a signal says of a job.
pub open spec fn job_judged(
    job_path: Seq<char>,
    signal: JobSignal,
    verdict: Option<Result<(), String>>,
) -> bool {
    if signal.job@ != job_path {
        verdict is None
    } else if signal.result@ == "done"@ {
        verdict matches Some(Ok(_))
    } else {
        verdict matches Some(Err(text)) && text@ == "systemd job 的执行结果为 "@
            + signal.result@
    }
}

/// Judges one signal: nothing for other jobs, else whether the job worked.
pub fn judge_job(job_path: &str, signal: &JobSignal) -> (verdict: Option<Result<(), String>>)
    ensures
        job_judged(job_path@, *signal, verdict),
{
    if !same(signal.job.as_str(), job_path) {
        return None;
    }
    if same(signal.result.as_str(), "done") {
        return Some(Ok(()));
    }
    Some(Err(cat2("systemd job 的执行结果为 ", signal.result.as_str())))
}

/// What waiting for a job came to without a verdict.
#[derive(Clone, Debug)]
pub enum JobWaitFailure {
    TimedOut,
    StreamEnded,
    Malformed(String),
}

/// Words a wait that failed.
pub fn job_wait_message(job_path: &str, failure: &JobWaitFailure) -> (text: String)
    ensures
        text@ == match *failure {
            JobWaitFailure::TimedOut => "等待 systemd job "@ + job_path@ + " 超时"@,
            JobWaitFailure::StreamEnded => "systemd JobRemoved 信号流已结束"@,
            JobWaitFailure::Malformed(error) => "解析 JobRemoved 信号失败: "@ + error@,
        },
{
    match failure {
        JobWaitFailure::TimedOut => cat3("等待 systemd job ", job_path, " 超时"),
        JobWaitFailure::StreamEnded => "systemd JobRemoved 信号流已结束".to_owned(),
        JobWaitFailure::Malformed(error) => cat2("解析 JobRemoved 信号失败: ", error.as_str()),
    }
}

/// Where creating a scope failed.
#[derive(Clone, Debug)]
pub enum ScopeFailure {
    Connect(String),
    Subscribe(String),
    Property { name: String, error: String },
    /// The request, or the job it started.
    Start(String),
}

/// Words a scope that could not be created.
pub fn scope_message(game_id: u32, unit: &str, failure: &ScopeFailure) -> (text: String)
    ensures
        text@ == match *failure {
            ScopeFailure::Connect(error) => "连接到 systemd 失败，无法启动游戏 "@ + decimal(
                game_id as nat,
            ) + ": "@ + error@,
            ScopeFailure::Subscribe(error) => "订阅 systemd JobRemoved 信号失败: "@ + error@,
            ScopeFailure::Property { name, error } => "构建 "@ + name@ + " 属性失败: "@ + error@,
            ScopeFailure::Start(error) => "创建 systemd scope "@ + unit@ + " 失败: "@ + error@,
        },
{
    match failure {
        ScopeFailure::Connect(error) => cat4(
            "连接到 systemd 失败，无法启动游戏 ",
            decimal_text(game_id as u64).as_str(),
            ": ",
            error.as_str(),
        ),
        ScopeFailure::Subscribe(error) => cat2("订阅 systemd JobRemoved 信号失败: ", error.as_str()),
        ScopeFailure::Property { name, error } => cat4(
            "构建 ",
            name.as_str(),
            " 属性失败: ",
            error.as_str(),
        ),
        ScopeFailure::Start(error) => cat4("创建 systemd scope ", unit, " 失败: ", error.as_str()),
    }
}

/// What is known about a unit of an earlier launch.
#[derive(Clone, Debug)]
pub enum UnitLook {
    /// The manager cannot be reached.
    Unreachable(String),
    /// There is no such unit.
    Absent,
    /// Its state could not be read.
    Unknown(String),
    Found(String),
}

/// What to do about a unit.
#[derive(Clone, Copy, Debug, PartialEq, Eq, Structural)]
pub enum UnitStep {
    /// There is none.
    Absent,
    /// It is there and usable.
    Present,
    /// It failed and has to be reset before its name can be used again.
    Reset,
}

/// What is to be done about a unit of an earlier launch.
pub open spec fn unit_judged(
    unit: Seq<char>,
    look: UnitLook,
    result: Result<UnitStep, String>,
) -> bool {
    match look {
        UnitLook::Unreachable(error) => result matches Err(text) && text@
            == "连接到 systemd 失败，无法检查或重置单元 "@ + unit + ": "@ + error@,
        UnitLook::Absent => result == Ok::<UnitStep, String>(UnitStep::Absent),
        UnitLook::Unknown(error) => result matches Err(text) && text@ == "获取单元 "@ + unit
            + " 状态失败: "@ + error@,
        UnitLook::Found(state) => result == Ok::<UnitStep, String>(
            if state@ == "failed"@ {
                UnitStep::Reset
            } else {
                UnitStep::Present
            },
        ),
    }
}

/// Judges a unit of an earlier launch.
pub fn check_unit(unit: &str, look: &UnitLook) -> (result: Result<UnitStep, String>)
    ensures
        unit_judged(unit@, *look, result),
{
    match look {
        UnitLook::Unreachable(error) => Err(
            cat4("连接到 systemd 失败，无法检查或重置单元 ", unit, ": ", error.as_str()),
        ),
        UnitLook::Absent => Ok(UnitStep::Absent),
        UnitLook::Unknown(error) => Err(cat4("获取单元 ", unit, " 状态失败: ", error.as_str())),
        UnitLook::Found(state) => {
            if same(state.as_str(), "failed") {
                Ok(UnitStep::Reset)
            } else {
                Ok(UnitStep::Present)
            }
        },
    }
}

/// Words a unit that could not be reset.
pub fn reset_message(unit: &str, error: &str) -> (text: String)
    ensures
        text@ == "重置单元 "@ + unit@ + " 状态失败: "@ + error@,
{
    cat4("重置单元 ", unit, " 状态失败: ", error)
}

/// What a start waits for, or how it ended.
#[derive(Clone, Copy, Debug, PartialEq, Eq, Structural)]
pub enum SpawnStage {
    ReadingPid,
    /// The child did not report; its own error is awaited.
    AwaitingFailure,
    CreatingScope,
    /// The child is told to give up.
    Abandoning,
    Releasing,
    AwaitingExec,
    /// The empty scope is stopped.
    StoppingUnit,
    Running,
    Failed,
}

pub open spec fn spawn_edge(from: SpawnStage, to: SpawnStage) -> bool {
    match from {
        SpawnStage::ReadingPid => to == SpawnStage::CreatingScope || to
            == SpawnStage::AwaitingFailure,
        SpawnStage::AwaitingFailure => to == SpawnStage::Failed,
        SpawnStage::CreatingScope => to == SpawnStage::Releasing || to == SpawnStage::Abandoning,
        SpawnStage::Abandoning => to == SpawnStage::Failed,
        SpawnStage::Releasing => to == SpawnStage::AwaitingExec,
        SpawnStage::AwaitingExec => to == SpawnStage::Running || to == SpawnStage::StoppingUnit
            || to == SpawnStage::Failed,
        SpawnStage::StoppingUnit => to == SpawnStage::Failed,
        SpawnStage::Running => false,
        SpawnStage::Failed => false,
    }
}

pub open spec fn spawn_history(stages: Seq<SpawnStage>) -> bool {
    &&& stages.len() > 0
    &&& stages[0] == SpawnStage::ReadingPid
    &&& forall|i: int| 0 < i < stages.len() ==> spawn_edge(#[trigger] stages[i - 1], stages[i])
}

/// The child is let go only right after its scope was created.
pub proof fn release_follows_scope(stages: Seq<SpawnStage>, at: int)
    requires
        spawn_history(stages),
        0 <= at < stages.len(),
        stages[at] == SpawnStage::Releasing,
    ensures
        at >= 1,
        stages[at - 1] == SpawnStage::CreatingScope,
{
    assert(at >= 1);
    assert(spawn_edge(stages[at - 1], stages[at]));
}

/// A process is reported as running only after it was let go.
pub proof fn running_follows_release(stages: Seq<SpawnStage>)
    requires
        spawn_history(stages),
        stages.last() == SpawnStage::Running,
    ensures
        stages.len() == 5,
        stages[3] == SpawnStage::AwaitingExec,
        stages[2] == SpawnStage::Releasing,
        stages[1] == SpawnStage::CreatingScope,
{
    let n = stages.len() as int;
    assert(n >= 2);
    assert(spawn_edge(stages[(n - 1) - 1], stages[n - 1]));
    assert(n >= 3);
    assert(spawn_edge(stages[(n - 2) - 1], stages[n - 2]));
    assert(n >= 4);
    assert(spawn_edge(stages[(n - 3) - 1], stages[n - 3]));
    assert(n >= 5);
    assert(spawn_edge(stages[(n - 4) - 1], stages[n - 4]));
    if n > 5 {
        assert(spawn_edge(stages[(n - 5) - 1], stages[n - 5]));
    }
}

/// What the host does next.
#[derive(Debug)]
pub enum SpawnAction {
    /// Close the release channel, and wait for the start to end.
    AwaitSpawn,
    /// Create the scope around this process.
    CreateScope(u32),
    /// Send this byte through the release channel, then close it.
    SendGate(u8),
    /// Stop the scope, whether or not that works.
    StopUnit,
    Finish(Result<u32, String>),
}

/// How the start of the child ended.
#[derive(Clone, Debug)]
pub enum SpawnEnd {
    Started,
    /// The child could not be started.
    Failed(String),
    /// The waiting task broke off.
    Crashed(String),
}

/// A start under way.
pub struct ScopeSpawn {
    pub stage: SpawnStage,
    pub process_id: u32,
    pub failure: String,
}

impl ScopeSpawn {
    pub open spec fn fails(after: ScopeSpawn, action: SpawnAction, message: Seq<char>) -> bool {
        after.stage == SpawnStage::Failed && (action matches SpawnAction::Finish(Err(text))
            && text@ == message)
    }

    pub fn new() -> (spawn: ScopeSpawn)
        ensures
            spawn.stage == SpawnStage::ReadingPid,
    {
        ScopeSpawn { stage: SpawnStage::ReadingPid, process_id: 0, failure: String::new() }
    }

    fn fail(&mut self, message: String) -> (action: SpawnAction)
        ensures
            *final(self) == (ScopeSpawn { stage: final(self).stage, ..*old(self) }),
            ScopeSpawn::fails(*final(self), action, message@),
    {
        self.stage = SpawnStage::Failed;
        SpawnAction::Finish(Err(message))
    }

    /// The child reported its process id, or not.
    pub fn on_pid(&mut self, reported: Result<[u8; 4], String>) -> (action: SpawnAction)
        requires
            old(self).stage == SpawnStage::ReadingPid,
        ensures
            spawn_edge(old(self).stage, final(self).stage),
            match reported {
                Ok(bytes) => {
                    &&& final(self).stage == SpawnStage::CreatingScope
                    &&& final(self).process_id == pid_value(bytes@)
                    &&& action == SpawnAction::CreateScope(final(self).process_id)
                },
                Err(text) => {
                    &&& final(self).stage == SpawnStage::AwaitingFailure
                    &&& final(self).failure == text
                    &&& action == SpawnAction::AwaitSpawn
                },
            },
    {
        match reported {
            Ok(bytes) => {
                let process_id: u32 = reported_pid(bytes);
                self.process_id = process_id;
                self.stage = SpawnStage::CreatingScope;
                SpawnAction::CreateScope(process_id)
            },
            Err(text) => {
                self.failure = text;
                self.stage = SpawnStage::AwaitingFailure;
                SpawnAction::AwaitSpawn
            },
        }
    }

    /// The scope was created, or not; if not, the child has to give up.
    pub fn on_scope(&mut self, result: Result<(), String>) -> (action: SpawnAction)
        requires
            old(self).stage == SpawnStage::CreatingScope,
        ensures
            *final(self) == (ScopeSpawn {
                stage: final(self).stage,
                failure: final(self).failure,
                ..*old(self)
            }),
            spawn_edge(old(self).stage, final(self).stage),
            match result {
                Ok(_) => final(self).stage == SpawnStage::Releasing && action
                    == SpawnAction::SendGate(GATE_RELEASE_BYTE),
                Err(text) => final(self).stage == SpawnStage::Abandoning && final(self).failure
                    == text && action == SpawnAction::SendGate(GATE_ABANDON_BYTE),
            },
    {
        match result {
            Ok(_) => {
                self.stage = SpawnStage::Releasing;
                SpawnAction::SendGate(GATE_RELEASE_BYTE)
            },
            Err(text) => {
                self.failure = text;
                self.stage = SpawnStage::Abandoning;
                SpawnAction::SendGate(GATE_ABANDON_BYTE)
            },
        }
    }

    /// The byte that lets the child go was sent; an error means that the
    /// child is gone, and the start will tell.
    pub fn on_released(&mut self) -> (action: SpawnAction)
        requires
            old(self).stage == SpawnStage::Releasing,
        ensures
            spawn_edge(old(self).stage, final(self).stage),
            *final(self) == (ScopeSpawn { stage: SpawnStage::AwaitingExec, ..*old(self) }),
            action == SpawnAction::AwaitSpawn,
    {
        self.stage = SpawnStage::AwaitingExec;
        SpawnAction::AwaitSpawn
    }

    /// The start has ended.
    pub fn on_spawned(&mut self, end: SpawnEnd) -> (action: SpawnAction)
        requires
            old(self).stage == SpawnStage::AwaitingFailure || old(self).stage
                == SpawnStage::Abandoning || old(self).stage == SpawnStage::AwaitingExec,
        ensures
            *final(self) == (ScopeSpawn {
                stage: final(self).stage,
                failure: final(self).failure,
                ..*old(self)
            }),
            spawn_edge(old(self).stage, final(self).stage),
            match old(self).stage {
                SpawnStage::AwaitingFailure => ScopeSpawn::fails(
                    *final(self),
                    action,
                    "拉起游戏进程失败: "@ + match end {
                        SpawnEnd::Started => "子进程未能回报 PID"@,
                        SpawnEnd::Failed(text) => text@,
                        SpawnEnd::Crashed(text) => text@,
                    } + "（"@ + old(self).failure@ + "）"@,
                ),
                SpawnStage::Abandoning => ScopeSpawn::fails(
                    *final(self),
                    action,
                    old(self).failure@,
                ),
                _ => match end {
                    SpawnEnd::Started => final(self).stage == SpawnStage::Running && action
                        == SpawnAction::Finish(Ok(old(self).process_id)),
                    SpawnEnd::Failed(text) => final(self).stage == SpawnStage::StoppingUnit
                        && final(self).failure == text && action == SpawnAction::StopUnit,
                    SpawnEnd::Crashed(text) => ScopeSpawn::fails(
                        *final(self),
                        action,
                        "启动游戏进程失败: "@ + text@,
                    ),
                },
            },
    {
        match self.stage {
            SpawnStage::AwaitingFailure => {
                let detail: String = match end {
                    SpawnEnd::Started => "子进程未能回报 PID".to_owned(),
                    SpawnEnd::Failed(text) => text,
                    SpawnEnd::Crashed(text) => text,
                };
                let message: String = cat5(
                    "拉起游戏进程失败: ",
                    detail.as_str(),
                    "（",
                    self.failure.as_str(),
                    "）",
                );
                self.fail(message)
            },
            SpawnStage::Abandoning => {
                let message: String = self.failure.clone();
                self.fail(message)
            },
            _ => match end {
                SpawnEnd::Started => {
                    self.stage = SpawnStage::Running;
                    SpawnAction::Finish(Ok(self.process_id))
                },
                SpawnEnd::Failed(text) => {
                    self.failure = text;
                    self.stage = SpawnStage::StoppingUnit;
                    SpawnAction::StopUnit
                },
                SpawnEnd::Crashed(text) => {
                    let message: String = cat2("启动游戏进程失败: ", text.as_str());
                    self.fail(message)
                },
            },
        }
    }

    /// The empty scope was stopped.
    pub fn on_unit_stopped(&mut self) -> (action: SpawnAction)
        requires
            old(self).stage == SpawnStage::StoppingUnit,
        ensures
            *final(self) == (ScopeSpawn { stage: final(self).stage, ..*old(self) }),
            spawn_edge(old(self).stage, final(self).stage),
            ScopeSpawn::fails(
                *final(self),
                action,
                "启动游戏进程失败: "@ + old(self).failure@,
            ),
    {
        let message: String = cat2("启动游戏进程失败: ", self.failure.as_str());
        self.fail(message)
    }
}

/// A process id is read with its lowest byte first, and every byte counts.
pub proof fn process_ids_are_little_endian(bytes: Seq<u8>)
    requires
        bytes.len() == 4,
    ensures
        ({
            let pid = pid_value(bytes);
            &&& pid % 256 == bytes[0]
            &&& pid / 256 % 256 == bytes[1]
            &&& pid / 65_536 % 256 == bytes[2]
            &&& pid / 16_777_216 == bytes[3]
        }),
{
}

/// One byte lets the child go, another one tells it to give up.
pub proof fn the_gate_has_two_answers()
    ensures
        GATE_RELEASE_BYTE == 1,
        GATE_ABANDON_BYTE == 0,
        JOB_WAIT_TIMEOUT_SECS == 10,
{
}

/// Signals about other jobs are passed over; a job worked exactly if its
/// result is `done`.
pub proof fn jobs_are_judged_by_their_own_signal(
    job_path: Seq<char>,
    signal: JobSignal,
    verdict: Option<Result<(), String>>,
)
    requires
        job_judged(job_path, signal, verdict),
    ensures
        verdict is Some <==> signal.job@ == job_path,
        verdict matches Some(result) ==> (result is Ok <==> signal.result@ == "done"@),
{
}

/// A unit is reset exactly if it failed, and used if it is in any other state;
/// what cannot be read is an error.
pub proof fn failed_units_are_reset(
    unit: Seq<char>,
    look: UnitLook,
    result: Result<UnitStep, String>,
)
    requires
        unit_judged(unit, look, result),
    ensures
        result is Err <==> look is Unreachable || look is Unknown,
        result == Ok::<UnitStep, String>(UnitStep::Absent) <==> look is Absent,
        result == Ok::<UnitStep, String>(UnitStep::Reset) <==> (look matches UnitLook::Found(state)
            && state@ == "failed"@),
        result == Ok::<UnitStep, String>(UnitStep::Present) <==> (look matches UnitLook::Found(
            state,
        ) && state@ != "failed"@),
{
}

} // verus!
