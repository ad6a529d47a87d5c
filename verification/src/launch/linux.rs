//! Launching on Linux: through Steam, or in a systemd scope with Wine, Proton
//! or nothing in between.

use vstd::prelude::*;
use vstd::string::*;

use super::common::{
    local_fault, steam_id, steam_launch_value, steam_uri, validate_local_launch, validate_steam,
    GameLaunch, LaunchResult, LocalLook,
};
use super::scope::unit_name;
use crate::text::chars::same;
use crate::text::concat::{cat2, cat3, cat4, option_view, views};
use crate::text::number::{decimal, decimal_text};
use crate::text::scan::{ends_with, split_words, strip_prefix, words};

verus! {

/// How long a Proton launch is watched, in nanoseconds.
pub const PROTON_WATCH: u64 = 8_000_000_000;

/// Time between two looks at a watched process, in nanoseconds.
pub const PROTON_POLL: u64 = 300_000_000;

/// The launch command: Proton with or without a profile, or the one from the
/// settings.
pub open spec fn launcher_text(profile: Option<Seq<char>>, settings: Seq<char>) -> Seq<char> {
    match profile {
        Some(profile) => if profile == "auto"@ {
            "proton-autogen"@
        } else {
            "proton-autogen --profile "@ + profile
        },
        None => settings,
    }
}

/// Picks the launch command.
pub fn launcher_command(profile: &Option<String>, settings: &str) -> (command: String)
    ensures
        command@ == launcher_text(option_view(*profile), settings@),
{
    match profile {
        Some(profile) => {
            if same(profile.as_str(), "auto") {
                "proton-autogen".to_owned()
            } else {
                cat2("proton-autogen --profile ", profile.as_str())
            }
        },
        None => settings.to_owned(),
    }
}

/// The path with a leading tilde replaced by the home directory, if that is
/// known.
pub open spec fn expanded(path: Seq<char>, home: Option<Seq<char>>) -> Seq<char> {
    if path.len() > 0 && path[0] == '~' && home is Some {
        home->Some_0 + path.skip(1)
    } else {
        path
    }
}

/// Replaces a leading tilde by the home directory.
pub fn expand_path(path: &str, home: &Option<String>) -> (result: String)
    ensures
        result@ == expanded(path@, option_view(*home)),
{
    proof {
        reveal_strlit("~");
    }
    match strip_prefix(path, "~") {
        Some(rest) => {
            assert(path@[0] == '~');
            assert(rest@ =~= path@.skip(1));
            match home {
                Some(home) => cat2(home.as_str(), rest),
                None => path.to_owned(),
            }
        },
        None => {
            proof {
                if path@.len() > 0 && path@[0] == '~' {
                    assert("~"@ =~= path@.subrange(0, 1));
                }
            }
            path.to_owned()
        },
    }
}

/// Program and arguments of a launch.
#[derive(Clone, Debug)]
pub struct ExecPlan {
    pub program: String,
    pub args: Vec<String>,
}

/// The words of a launch command, Wine if there are none.
pub open spec fn launcher_words(launcher: Seq<char>) -> Seq<Seq<char>> {
    if words(launcher).len() == 0 {
        seq!["wine"@]
    } else {
        words(launcher)
    }
}

/// A Windows program, by its name.
pub open spec fn is_windows_program(exe_name: Seq<char>) -> bool {
    ".exe"@.is_suffix_of(exe_name)
}

/// The command line: a Windows program is handed to the launcher, anything
/// else runs itself; the user's arguments come last.
pub open spec fn command_line(
    launcher: Seq<char>,
    exe_name: Seq<char>,
    game_path: Seq<char>,
    args: Seq<Seq<char>>,
) -> (Seq<char>, Seq<Seq<char>>) {
    if is_windows_program(exe_name) {
        (
            launcher_words(launcher)[0],
            launcher_words(launcher).drop_first() + seq![game_path] + args,
        )
    } else {
        (game_path, args)
    }
}

fn append_texts(target: &mut Vec<String>, source: &Vec<String>, from: usize)
    requires
        from <= source@.len(),
    ensures
        views(final(target)@) == views(old(target)@) + views(source@).skip(from as int),
{
    let ghost start = views(target@);
    let mut at: usize = from;
    assert(start =~= start + views(source@).subrange(from as int, at as int));
    while at < source.len()
        invariant
            from <= at <= source@.len(),
            views(target@) == start + views(source@).subrange(from as int, at as int),
        decreases source@.len() - at,
    {
        let ghost before = target@;
        target.push(source[at].clone());
        assert(views(target@) =~= views(before).push(source@[at as int]@));
        assert(views(target@) =~= start + views(source@).subrange(from as int, at + 1));
        at += 1;
    }
    assert(views(source@).subrange(from as int, at as int) =~= views(source@).skip(from as int));
}

/// Builds the command line of a launch.
pub fn build_exec(launcher: &str, exe_name: &str, game_path: &str, args: &Vec<String>) -> (plan:
    ExecPlan)
    ensures
        (plan.program@, views(plan.args@)) == command_line(
            launcher@,
            exe_name@,
            game_path@,
            views(args@),
        ),
{
    let mut exec_args: Vec<String> = Vec::new();
    assert(views(exec_args@) =~= Seq::<Seq<char>>::empty());
    assert(views(args@).skip(0) =~= views(args@));
    if ends_with(exe_name, ".exe") {
        let parts: Vec<String> = split_words(launcher);
        if parts.len() == 0 {
            exec_args.push(game_path.to_owned());
            assert(views(exec_args@) =~= seq![game_path@]);
            append_texts(&mut exec_args, args, 0);
            assert(views(exec_args@) =~= seq!["wine"@].drop_first() + seq![game_path@] + views(
                args@,
            ));
            ExecPlan { program: "wine".to_owned(), args: exec_args }
        } else {
            append_texts(&mut exec_args, &parts, 1);
            assert(views(exec_args@) =~= views(parts@).drop_first());
            let ghost before = exec_args@;
            exec_args.push(game_path.to_owned());
            assert(views(exec_args@) =~= views(before) + seq![game_path@]);
            append_texts(&mut exec_args, args, 0);
            assert(views(parts@)[0] == parts@[0]@);
            ExecPlan { program: parts[0].clone(), args: exec_args }
        }
    } else {
        append_texts(&mut exec_args, args, 0);
        assert(views(exec_args@) =~= views(args@));
        ExecPlan { program: game_path.to_owned(), args: exec_args }
    }
}

/// The user's arguments reach the game unchanged and in order, behind
/// everything else.
pub proof fn user_arguments_come_last(
    launcher: Seq<char>,
    exe_name: Seq<char>,
    game_path: Seq<char>,
    args: Seq<Seq<char>>,
)
    ensures
        ({
            let (program, line) = command_line(launcher, exe_name, game_path, args);
            &&& line.len() >= args.len()
            &&& line.skip(line.len() - args.len()) == args
        }),
{
    let (program, line) = command_line(launcher, exe_name, game_path, args);
    assert(line.skip(line.len() - args.len()) =~= args);
}

/// What a launch waits for, or how it ended.
#[derive(Clone, Copy, Debug, PartialEq, Eq, Structural)]
pub enum LaunchStage {
    Loading,
    ResolvingSteamId,
    OpeningSteam,
    AwaitingSteam,
    MonitoringSteam,
    LookingAtLocal,
    CheckingUnit,
    Spawning,
    Watching,
    Sleeping,
    RecheckingUnit,
    Respawning,
    Monitoring,
    Tracking,
    Failed,
}

pub open spec fn launch_edge(from: LaunchStage, to: LaunchStage) -> bool {
    match from {
        LaunchStage::Loading => to == LaunchStage::ResolvingSteamId || to
            == LaunchStage::LookingAtLocal || to == LaunchStage::Failed,
        LaunchStage::ResolvingSteamId => to == LaunchStage::OpeningSteam || to
            == LaunchStage::Failed,
        LaunchStage::OpeningSteam => to == LaunchStage::AwaitingSteam || to == LaunchStage::Failed,
        LaunchStage::AwaitingSteam => to == LaunchStage::MonitoringSteam || to
            == LaunchStage::Failed,
        LaunchStage::MonitoringSteam => to == LaunchStage::Tracking,
        LaunchStage::LookingAtLocal => to == LaunchStage::CheckingUnit || to
            == LaunchStage::Failed,
        LaunchStage::CheckingUnit => to == LaunchStage::Spawning,
        LaunchStage::Spawning => to == LaunchStage::Watching || to == LaunchStage::Monitoring
            || to == LaunchStage::Failed,
        LaunchStage::Watching => to == LaunchStage::Sleeping || to == LaunchStage::RecheckingUnit
            || to == LaunchStage::Monitoring,
        LaunchStage::Sleeping => to == LaunchStage::Watching,
        LaunchStage::RecheckingUnit => to == LaunchStage::Respawning,
        LaunchStage::Respawning => to == LaunchStage::Monitoring || to == LaunchStage::Failed,
        LaunchStage::Monitoring => to == LaunchStage::Tracking,
        LaunchStage::Tracking => false,
        LaunchStage::Failed => false,
    }
}

pub open spec fn launch_history(stages: Seq<LaunchStage>) -> bool {
    &&& stages.len() > 0
    &&& stages[0] == LaunchStage::Loading
    &&& forall|i: int| 0 < i < stages.len() ==> launch_edge(#[trigger] stages[i - 1], stages[i])
}

/// A launch is reported as tracking only right after monitoring was started.
pub proof fn tracking_follows_monitoring(stages: Seq<LaunchStage>)
    requires
        launch_history(stages),
        stages.last() == LaunchStage::Tracking,
    ensures
        stages.len() >= 2,
        stages[stages.len() - 2] == LaunchStage::Monitoring || stages[stages.len() - 2]
            == LaunchStage::MonitoringSteam,
{
    let n = stages.len() as int;
    assert(n >= 2);
    assert(launch_edge(stages[(n - 1) - 1], stages[n - 1]));
}

proof fn no_respawn_before(stages: Seq<LaunchStage>, at: int, earlier: int)
    requires
        launch_history(stages),
        0 <= earlier < at < stages.len(),
        stages[earlier] == LaunchStage::Respawning,
    ensures
        stages[at] == LaunchStage::Monitoring || stages[at] == LaunchStage::Tracking || stages[at]
            == LaunchStage::Failed,
    decreases at,
{
    assert(launch_edge(stages[at - 1], stages[at]));
    if earlier < at - 1 {
        no_respawn_before(stages, at - 1, earlier);
    }
}

/// The fallback is tried at most once.
pub proof fn fallback_happens_once(stages: Seq<LaunchStage>, first: int, second: int)
    requires
        launch_history(stages),
        0 <= first < stages.len(),
        0 <= second < stages.len(),
        stages[first] == LaunchStage::Respawning,
        stages[second] == LaunchStage::Respawning,
    ensures
        first == second,
{
    if first < second {
        no_respawn_before(stages, second, first);
    } else if second < first {
        no_respawn_before(stages, first, second);
    }
}

/// What the host does next.
#[derive(Debug)]
pub enum LaunchAction {
    /// Find the app id that this launch id stands for.
    ResolveSteamId(u64),
    /// Open this address.
    OpenUri(String),
    /// Wait for the process of this app id.
    AwaitSteam(u32),
    /// Start to monitor the process of this app id.
    MonitorSteam { process_id: u32, app_id: u32 },
    /// Look at directory and executable.
    LookAtLocal,
    /// Reset the scope if it failed before, whether or not that works.
    CheckUnit(String),
    /// Start this command in the scope.
    Spawn(ExecPlan),
    /// See whether the process lives.
    CheckAlive(u32),
    /// Sleep for so many nanoseconds.
    Sleep(u64),
    /// Start to monitor the process in this scope.
    Monitor { process_id: u32, unit: String },
    Finish(LaunchResult),
}

/// What is known about a local game.
#[derive(Debug)]
pub struct LocalGame {
    pub look: LocalLook,
    /// The name of the executable.
    pub exe_name: Option<String>,
    /// The directory in quotes, as messages show it.
    pub game_dir_quoted: String,
}

/// A launch under way.
pub struct Launch {
    pub stage: LaunchStage,
    pub game_id: u32,
    /// The user's arguments.
    pub args: Vec<String>,
    pub profile: Option<String>,
    pub exe_name: String,
    pub game_path: String,
    pub game_dir_quoted: String,
    /// The launch command from the settings, expanded.
    pub settings_launcher: String,
    pub steam_id: u64,
    pub app_id: u32,
    pub process_id: u32,
    pub fallback_used: bool,
}

impl Launch {
    pub open spec fn fails(after: Launch, action: LaunchAction, text: Seq<char>) -> bool {
        after.stage == LaunchStage::Failed && (action matches LaunchAction::Finish(
            LaunchResult::Failed { message },
        ) && message@ == text)
    }

    /// A launch of a game with the user's arguments.
    pub fn new(game_id: u32, args: Vec<String>) -> (launch: Launch)
        ensures
            launch.stage == LaunchStage::Loading,
            launch.game_id == game_id,
            launch.args == args,
            launch.profile is None,
            !launch.fallback_used,
    {
        Launch {
            stage: LaunchStage::Loading,
            game_id,
            args,
            profile: None,
            exe_name: String::new(),
            game_path: String::new(),
            game_dir_quoted: String::new(),
            settings_launcher: String::new(),
            steam_id: 0,
            app_id: 0,
            process_id: 0,
            fallback_used: false,
        }
    }

    fn fail(&mut self, message: String) -> (action: LaunchAction)
        ensures
            *final(self) == (Launch { stage: final(self).stage, ..*old(self) }),
            Launch::fails(*final(self), action, message@),
    {
        self.stage = LaunchStage::Failed;
        LaunchAction::Finish(LaunchResult::failed(message))
    }

    /// The game was looked up.
    pub fn on_game(&mut self, found: &Result<GameLaunch, String>) -> (action: LaunchAction)
        requires
            old(self).stage == LaunchStage::Loading,
        ensures
            *final(self) == (Launch {
                stage: final(self).stage,
                steam_id: final(self).steam_id,
                ..*old(self)
            }),
            launch_edge(old(self).stage, final(self).stage),
            match *found {
                Err(text) => Launch::fails(*final(self), action, text@),
                Ok(game) => if game.launch_type@ == "steam"@ {
                    match steam_id(option_view(game.steam_launch_id)) {
                        None => Launch::fails(
                            *final(self),
                            action,
                            "Steam 启动 ID 无效，请重新关联 Steam 启动项"@,
                        ),
                        Some(value) => *final(self) == (Launch {
                            stage: LaunchStage::ResolvingSteamId,
                            steam_id: value,
                            ..*old(self)
                        }) && action == LaunchAction::ResolveSteamId(value),
                    }
                } else {
                    *final(self) == (Launch { stage: LaunchStage::LookingAtLocal, ..*old(self) })
                        && action == LaunchAction::LookAtLocal
                },
            },
    {
        let game: &GameLaunch = match found {
            Ok(game) => game,
            Err(text) => {
                let message: String = text.clone();
                return self.fail(message);
            },
        };
        if same(game.launch_type.as_str(), "steam") {
            match steam_launch_value(&game.steam_launch_id) {
                Err(text) => self.fail(text),
                Ok(value) => {
                    self.steam_id = value;
                    self.stage = LaunchStage::ResolvingSteamId;
                    LaunchAction::ResolveSteamId(value)
                },
            }
        } else {
            self.stage = LaunchStage::LookingAtLocal;
            LaunchAction::LookAtLocal
        }
    }

    /// The app id of a Steam game is known, or not.
    pub fn on_steam_id(&mut self, app_id: Result<u32, String>) -> (action: LaunchAction)
        requires
            old(self).stage == LaunchStage::ResolvingSteamId,
        ensures
            *final(self) == (Launch {
                stage: final(self).stage,
                app_id: final(self).app_id,
                ..*old(self)
            }),
            launch_edge(old(self).stage, final(self).stage),
            match app_id {
                Err(_) => Launch::fails(
                    *final(self),
                    action,
                    "Steam 启动 ID 无效，请重新关联 Steam 启动项"@,
                ),
                Ok(app_id) => {
                    &&& *final(self) == (Launch {
                        stage: LaunchStage::OpeningSteam,
                        app_id,
                        ..*old(self)
                    })
                    &&& action matches LaunchAction::OpenUri(uri) && uri@ == "steam://rungameid/"@
                        + decimal(old(self).steam_id as nat)
                },
            },
    {
        match validate_steam(self.steam_id, app_id) {
            Err(text) => self.fail(text),
            Ok(launch) => {
                self.app_id = launch.steam_app_id;
                self.stage = LaunchStage::OpeningSteam;
                LaunchAction::OpenUri(steam_uri(self.steam_id))
            },
        }
    }

    /// The address was opened, or not.
    pub fn on_steam_opened(&mut self, result: Result<(), String>) -> (action: LaunchAction)
        requires
            old(self).stage == LaunchStage::OpeningSteam,
        ensures
            *final(self) == (Launch { stage: final(self).stage, ..*old(self) }),
            launch_edge(old(self).stage, final(self).stage),
            match result {
                Ok(_) => *final(self) == (Launch { stage: LaunchStage::AwaitingSteam, ..*old(self) })
                    && action == LaunchAction::AwaitSteam(old(self).app_id),
                Err(text) => Launch::fails(
                    *final(self),
                    action,
                    "打开 Steam 启动项失败: "@ + text@,
                ),
            },
    {
        match result {
            Ok(_) => {
                self.stage = LaunchStage::AwaitingSteam;
                LaunchAction::AwaitSteam(self.app_id)
            },
            Err(text) => {
                let message: String = cat2("打开 Steam 启动项失败: ", text.as_str());
                self.fail(message)
            },
        }
    }

    /// The process of the Steam game appeared, or not.
    pub fn on_steam_process(&mut self, result: Result<u32, String>) -> (action: LaunchAction)
        requires
            old(self).stage == LaunchStage::AwaitingSteam,
        ensures
            *final(self) == (Launch {
                stage: final(self).stage,
                process_id: final(self).process_id,
                ..*old(self)
            }),
            launch_edge(old(self).stage, final(self).stage),
            match result {
                Ok(process_id) => {
                    &&& *final(self) == (Launch {
                        stage: LaunchStage::MonitoringSteam,
                        process_id,
                        ..*old(self)
                    })
                    &&& action == (LaunchAction::MonitorSteam {
                        process_id,
                        app_id: old(self).app_id,
                    })
                },
                Err(text) => Launch::fails(
                    *final(self),
                    action,
                    text@ + "，本次游玩未开始计时"@,
                ),
            },
    {
        match result {
            Ok(process_id) => {
                self.process_id = process_id;
                self.stage = LaunchStage::MonitoringSteam;
                LaunchAction::MonitorSteam { process_id, app_id: self.app_id }
            },
            Err(text) => {
                let message: String = cat2(text.as_str(), "，本次游玩未开始计时");
                self.fail(message)
            },
        }
    }

    /// Directory and executable of a local game were looked at.
    pub fn on_local(&mut self, game: &GameLaunch, local: &LocalGame) -> (action: LaunchAction)
        requires
            old(self).stage == LaunchStage::LookingAtLocal,
        ensures
            *final(self) == (Launch {
                stage: final(self).stage,
                profile: final(self).profile,
                exe_name: final(self).exe_name,
                game_path: final(self).game_path,
                game_dir_quoted: final(self).game_dir_quoted,
                ..*old(self)
            }),
            launch_edge(old(self).stage, final(self).stage),
            match local_fault(*game, local.look) {
                Some(text) => Launch::fails(*final(self), action, text),
                None => match local.exe_name {
                    None => Launch::fails(*final(self), action, "无法获取游戏可执行文件名"@),
                    Some(name) => {
                        &&& final(self).stage == LaunchStage::CheckingUnit
                        &&& option_view(final(self).profile) == option_view(game.proton_profile)
                        &&& final(self).exe_name@ == name@
                        &&& final(self).game_path@ == local.look.executable_path@
                        &&& final(self).game_dir_quoted@ == local.game_dir_quoted@
                        &&& action matches LaunchAction::CheckUnit(unit) && unit@
                            == "reina_game_"@ + decimal(old(self).game_id as nat) + ".scope"@
                    },
                },
            },
    {
        let launch = match validate_local_launch(game, &local.look) {
            Ok(launch) => launch,
            Err(text) => {
                return self.fail(text);
            },
        };
        match &local.exe_name {
            None => self.fail("无法获取游戏可执行文件名".to_owned()),
            Some(name) => {
                self.profile = crate::text::concat::copy_option(&game.proton_profile);
                self.exe_name = name.clone();
                self.game_path = launch.executable_path;
                self.game_dir_quoted = local.game_dir_quoted.clone();
                self.stage = LaunchStage::CheckingUnit;
                LaunchAction::CheckUnit(unit_name(self.game_id))
            },
        }
    }

    /// The launch command from the settings, Wine if there is none.
    pub open spec fn settings_text(setting: Option<Seq<char>>) -> Seq<char> {
        match setting {
            Some(text) => text,
            None => "wine"@,
        }
    }

    /// The scope is ready. `setting` is the launch command from the settings,
    /// `home` the home directory if it is known.
    pub fn on_unit(&mut self, setting: &Option<String>, home: &Option<String>) -> (action:
        LaunchAction)
        requires
            old(self).stage == LaunchStage::CheckingUnit,
        ensures
            *final(self) == (Launch {
                stage: final(self).stage,
                settings_launcher: final(self).settings_launcher,
                ..*old(self)
            }),
            launch_edge(old(self).stage, final(self).stage),
            ({
                let settings = Launch::settings_text(option_view(*setting));
                let launcher = expanded(
                    launcher_text(option_view(old(self).profile), settings),
                    option_view(*home),
                );
                &&& final(self).stage == LaunchStage::Spawning
                &&& final(self).settings_launcher@ == expanded(settings, option_view(*home))
                &&& *final(self) == (Launch {
                    stage: LaunchStage::Spawning,
                    settings_launcher: final(self).settings_launcher,
                    ..*old(self)
                })
                &&& action matches LaunchAction::Spawn(plan) && (plan.program@, views(plan.args@))
                    == command_line(
                    launcher,
                    old(self).exe_name@,
                    old(self).game_path@,
                    views(old(self).args@),
                )
            }),
    {
        let settings: String = match setting {
            Some(text) => text.clone(),
            None => "wine".to_owned(),
        };
        let command: String = launcher_command(&self.profile, settings.as_str());
        let launcher: String = expand_path(command.as_str(), home);
        self.settings_launcher = expand_path(settings.as_str(), home);
        let plan: ExecPlan = build_exec(
            launcher.as_str(),
            self.exe_name.as_str(),
            self.game_path.as_str(),
            &self.args,
        );
        self.stage = LaunchStage::Spawning;
        LaunchAction::Spawn(plan)
    }

    /// A launch with Proton is watched for a while: it may fail at once.
    pub open spec fn watched(self) -> bool {
        self.profile is Some && is_windows_program(self.exe_name@)
    }

    /// The step that starts to monitor the process.
    pub open spec fn monitors(self, after: Launch, action: LaunchAction) -> bool {
        &&& after == (Launch { stage: LaunchStage::Monitoring, ..self })
        &&& action matches LaunchAction::Monitor { process_id, unit } && process_id
            == self.process_id && unit@ == "reina_game_"@ + decimal(self.game_id as nat)
            + ".scope"@
    }

    fn monitor(&mut self) -> (action: LaunchAction)
        ensures
            *final(self) == (Launch { stage: final(self).stage, ..*old(self) }),
            old(self).monitors(*final(self), action),
    {
        self.stage = LaunchStage::Monitoring;
        LaunchAction::Monitor { process_id: self.process_id, unit: unit_name(self.game_id) }
    }

    /// The process was started, or not.
    pub fn on_spawned(&mut self, result: Result<u32, String>) -> (action: LaunchAction)
        requires
            old(self).stage == LaunchStage::Spawning,
        ensures
            *final(self) == (Launch {
                stage: final(self).stage,
                process_id: final(self).process_id,
                ..*old(self)
            }),
            launch_edge(old(self).stage, final(self).stage),
            match result {
                Err(text) => Launch::fails(*final(self), action, text@),
                Ok(process_id) => if old(self).watched() {
                    *final(self) == (Launch {
                        stage: LaunchStage::Watching,
                        process_id,
                        ..*old(self)
                    }) && action == LaunchAction::CheckAlive(process_id)
                } else {
                    (Launch { process_id, ..*old(self) }).monitors(*final(self), action)
                },
            },
    {
        match result {
            Err(text) => self.fail(text),
            Ok(process_id) => {
                self.process_id = process_id;
                if self.profile.is_some() && ends_with(self.exe_name.as_str(), ".exe") {
                    self.stage = LaunchStage::Watching;
                    LaunchAction::CheckAlive(process_id)
                } else {
                    self.monitor()
                }
            },
        }
    }

    /// What a look at the watched process calls for.
    pub open spec fn watches(
        self,
        after: Launch,
        alive: bool,
        elapsed: u64,
        action: LaunchAction,
    ) -> bool {
        if !alive {
            &&& after == (Launch { stage: LaunchStage::RecheckingUnit, ..self })
            &&& action matches LaunchAction::CheckUnit(unit) && unit@ == "reina_game_"@
                + decimal(self.game_id as nat) + ".scope"@
        } else if elapsed >= PROTON_WATCH {
            self.monitors(after, action)
        } else {
            &&& after == (Launch { stage: LaunchStage::Sleeping, ..self })
            &&& action == LaunchAction::Sleep(PROTON_POLL)
        }
    }

    /// The watched process was looked at, so long after its start. One that
    /// is gone early is replaced by the launch command from the settings.
    pub fn on_alive(&mut self, alive: bool, elapsed: u64) -> (action: LaunchAction)
        requires
            old(self).stage == LaunchStage::Watching,
        ensures
            *final(self) == (Launch { stage: final(self).stage, ..*old(self) }),
            launch_edge(old(self).stage, final(self).stage),
            old(self).watches(*final(self), alive, elapsed, action),
    {
        if !alive {
            self.stage = LaunchStage::RecheckingUnit;
            LaunchAction::CheckUnit(unit_name(self.game_id))
        } else if elapsed >= PROTON_WATCH {
            self.monitor()
        } else {
            self.stage = LaunchStage::Sleeping;
            LaunchAction::Sleep(PROTON_POLL)
        }
    }

    /// The pause between two looks is over.
    pub fn on_slept(&mut self) -> (action: LaunchAction)
        requires
            old(self).stage == LaunchStage::Sleeping,
        ensures
            launch_edge(old(self).stage, final(self).stage),
            *final(self) == (Launch { stage: LaunchStage::Watching, ..*old(self) }),
            action == LaunchAction::CheckAlive(old(self).process_id),
    {
        self.stage = LaunchStage::Watching;
        LaunchAction::CheckAlive(self.process_id)
    }

    /// The scope is ready again: start with the command from the settings.
    pub fn on_unit_again(&mut self) -> (action: LaunchAction)
        requires
            old(self).stage == LaunchStage::RecheckingUnit,
        ensures
            launch_edge(old(self).stage, final(self).stage),
            *final(self) == (Launch { stage: LaunchStage::Respawning, ..*old(self) }),
            action matches LaunchAction::Spawn(plan) && (plan.program@, views(plan.args@))
                == command_line(
                old(self).settings_launcher@,
                old(self).exe_name@,
                old(self).game_path@,
                views(old(self).args@),
            ),
    {
        let plan: ExecPlan = build_exec(
            self.settings_launcher.as_str(),
            self.exe_name.as_str(),
            self.game_path.as_str(),
            &self.args,
        );
        self.stage = LaunchStage::Respawning;
        LaunchAction::Spawn(plan)
    }

    /// The fallback was started, or not.
    pub fn on_respawned(&mut self, result: Result<u32, String>) -> (action: LaunchAction)
        requires
            old(self).stage == LaunchStage::Respawning,
        ensures
            *final(self) == (Launch {
                stage: final(self).stage,
                process_id: final(self).process_id,
                fallback_used: final(self).fallback_used,
                ..*old(self)
            }),
            launch_edge(old(self).stage, final(self).stage),
            match result {
                Err(text) => Launch::fails(
                    *final(self),
                    action,
                    "proton 启动失败且回退也失败: "@ + text@ + "，目录: "@ + old(
                        self,
                    ).game_dir_quoted@,
                ),
                Ok(process_id) => (Launch {
                    process_id,
                    fallback_used: true,
                    ..*old(self)
                }).monitors(*final(self), action),
            },
    {
        match result {
            Err(text) => {
                let message: String = cat4(
                    "proton 启动失败且回退也失败: ",
                    text.as_str(),
                    "，目录: ",
                    self.game_dir_quoted.as_str(),
                );
                self.fail(message)
            },
            Ok(process_id) => {
                self.process_id = process_id;
                self.fallback_used = true;
                self.monitor()
            },
        }
    }

    /// Monitoring has begun.
    pub fn on_monitored(&mut self) -> (action: LaunchAction)
        requires
            old(self).stage == LaunchStage::Monitoring || old(self).stage
                == LaunchStage::MonitoringSteam,
        ensures
            *final(self) == (Launch { stage: final(self).stage, ..*old(self) }),
            launch_edge(old(self).stage, final(self).stage),
            final(self).stage == LaunchStage::Tracking,
            action matches LaunchAction::Finish(LaunchResult::Tracking { message, process_id })
                && process_id == Some(old(self).process_id) && message@ == if old(self).stage
                == LaunchStage::MonitoringSteam {
                "已交由 Steam 启动游戏 ("@ + decimal(old(self).steam_id as nat) + ")"@
            } else if old(self).fallback_used {
                "proton-autogen 启动失败，已回退 Linux 启动命令启动: "@ + old(self).exe_name@
            } else {
                "成功启动游戏: "@ + old(self).exe_name@ + "，工作目录: "@ + old(
                    self,
                ).game_dir_quoted@
            },
    {
        let message: String = match self.stage {
            LaunchStage::MonitoringSteam => cat3(
                "已交由 Steam 启动游戏 (",
                decimal_text(self.steam_id).as_str(),
                ")",
            ),
            _ => {
                if self.fallback_used {
                    cat2(
                        "proton-autogen 启动失败，已回退 Linux 启动命令启动: ",
                        self.exe_name.as_str(),
                    )
                } else {
                    cat4(
                        "成功启动游戏: ",
                        self.exe_name.as_str(),
                        "，工作目录: ",
                        self.game_dir_quoted.as_str(),
                    )
                }
            },
        };
        self.stage = LaunchStage::Tracking;
        LaunchAction::Finish(LaunchResult::tracking(message, Some(self.process_id)))
    }
}

/// What is not named `.exe` at its end runs itself: the program is the game's
/// own file, and the arguments are exactly the user's. No launcher is put in
/// front of a native game.
pub proof fn native_games_run_themselves(
    launcher: Seq<char>,
    exe_name: Seq<char>,
    game_path: Seq<char>,
    args: Seq<Seq<char>>,
)
    requires
        forall|head: Seq<char>| exe_name != #[trigger] (head + ".exe"@),
    ensures
        command_line(launcher, exe_name, game_path, args) == (game_path, args),
{
    if ".exe"@.is_suffix_of(exe_name) {
        let head = exe_name.take(exe_name.len() - ".exe"@.len());
        assert(exe_name =~= head + ".exe"@);
    }
}

/// What is named `.exe` at its end is handed to the launcher: the program is
/// the launcher's first word, Wine if it has none, followed by the launcher's
/// other words, the game's file and the user's arguments.
pub proof fn windows_games_run_through_the_launcher(
    launcher: Seq<char>,
    head: Seq<char>,
    game_path: Seq<char>,
    args: Seq<Seq<char>>,
)
    ensures
        ({
            let (program, line) = command_line(launcher, head + ".exe"@, game_path, args);
            &&& words(launcher).len() == 0 ==> program == "wine"@ && line == seq![game_path] + args
            &&& words(launcher).len() > 0 ==> seq![program] + line == words(launcher)
                + seq![game_path] + args
        }),
{
    let name = head + ".exe"@;
    assert(name.subrange(name.len() - ".exe"@.len(), name.len() as int) =~= ".exe"@);
    let (program, line) = command_line(launcher, name, game_path, args);
    if words(launcher).len() == 0 {
        assert(line =~= seq![game_path] + args);
    } else {
        assert(seq![program] + line =~= words(launcher) + seq![game_path] + args);
    }
}

/// Without a Proton profile the command from the settings is used as it is;
/// `auto` stands for Proton without a profile, any other profile is named to
/// it.
pub proof fn profiles_select_proton(profile: Seq<char>, settings: Seq<char>)
    ensures
        launcher_text(None, settings) == settings,
        launcher_text(Some("auto"@), settings) == "proton-autogen"@,
        profile != "auto"@ ==> launcher_text(Some(profile), settings)
            == "proton-autogen --profile "@ + profile,
{
}

/// A tilde at the start stands for the home directory; nothing else of a path
/// is changed, and without a home nothing is.
pub proof fn tildes_stand_for_home(rest: Seq<char>, home: Seq<char>)
    ensures
        expanded(seq!['~'] + rest, Some(home)) == home + rest,
        expanded(rest, None) == rest,
        rest.len() == 0 || rest[0] != '~' ==> expanded(rest, Some(home)) == rest,
{
    assert((seq!['~'] + rest).skip(1) =~= rest);
}

/// A launch is watched exactly if Proton starts a Windows program.
pub proof fn only_proton_launches_are_watched(launch: Launch)
    ensures
        launch.watched() <==> launch.profile is Some && exists|head: Seq<char>|
            launch.exe_name@ == #[trigger] (head + ".exe"@),
{
    let name = launch.exe_name@;
    if ".exe"@.is_suffix_of(name) {
        let head = name.take(name.len() - ".exe"@.len());
        assert(name =~= head + ".exe"@);
    }
    if exists|head: Seq<char>| name == #[trigger] (head + ".exe"@) {
        let head = choose|head: Seq<char>| name == #[trigger] (head + ".exe"@);
        assert(name.subrange(name.len() - ".exe"@.len(), name.len() as int) =~= ".exe"@);
    }
}

/// Proton has eight seconds to fail, and is looked at about three times a
/// second; without a setting Wine is used.
pub proof fn proton_is_watched_for_eight_seconds(setting: Seq<char>)
    ensures
        PROTON_WATCH == 8 * 1_000_000_000,
        PROTON_POLL == 300 * 1_000_000,
        Launch::settings_text(None) == "wine"@,
        Launch::settings_text(Some(setting)) == setting,
{
}

/// A watched process that is gone leads to the fallback at once; one that
/// lives is looked at again until eight seconds have passed, and then
/// monitored under its own id.
pub proof fn watched_processes_live_or_fall_back(
    launch: Launch,
    after: Launch,
    alive: bool,
    elapsed: u64,
    action: LaunchAction,
)
    requires
        launch.watches(after, alive, elapsed, action),
    ensures
        action is CheckUnit <==> !alive,
        action is Sleep <==> alive && elapsed < 8_000_000_000,
        action is Monitor <==> alive && elapsed >= 8_000_000_000,
        action matches LaunchAction::Sleep(pause) ==> pause == 300_000_000,
        action matches LaunchAction::CheckUnit(unit) ==> unit@ == "reina_game_"@ + decimal(
            launch.game_id as nat,
        ) + ".scope"@,
        action matches LaunchAction::Monitor { process_id, unit } ==> process_id
            == launch.process_id && unit@ == "reina_game_"@ + decimal(launch.game_id as nat)
            + ".scope"@,
        after.process_id == launch.process_id && after.fallback_used == launch.fallback_used,
{
}

/// A game is monitored by the process that was started, in the scope that
/// carries its own number and no other game's.
pub proof fn games_are_monitored_in_their_own_scope(
    left: Launch,
    right: Launch,
    after_left: Launch,
    after_right: Launch,
    left_action: LaunchAction,
    right_action: LaunchAction,
)
    requires
        left.monitors(after_left, left_action),
        right.monitors(after_right, right_action),
    ensures
        left_action is Monitor && right_action is Monitor,
        left_action->Monitor_process_id == left.process_id,
        left_action->Monitor_unit@ == "reina_game_"@ + decimal(left.game_id as nat) + ".scope"@,
        left_action->Monitor_unit@ == right_action->Monitor_unit@ ==> left.game_id == right.game_id,
{
    let (first, second) = (left_action->Monitor_unit@, right_action->Monitor_unit@);
    if first == second {
        let head = "reina_game_"@;
        let tail = ".scope"@;
        assert(first.subrange(head.len() as int, first.len() - tail.len()) =~= decimal(
            left.game_id as nat,
        ));
        assert(second.subrange(head.len() as int, second.len() - tail.len()) =~= decimal(
            right.game_id as nat,
        ));
        crate::text::number::decimals_differ(left.game_id as nat, right.game_id as nat);
    }
}

} // verus!
