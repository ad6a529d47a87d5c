//! What launching has in common on all platforms.

use vstd::prelude::*;

use crate::text::chars::same;
use crate::text::concat::{cat2, cat4, option_view};
use crate::text::number::{decimal, decimal_text, number_value, parse_number};
use crate::text::scan::{trim, trimmed};
use vstd::string::*;

verus! {

/// What a launch came to.
#[derive(Clone, Debug)]
pub enum LaunchResult {
    /// The game runs and its time is counted.
    Tracking { message: String, process_id: Option<u32> },
    Failed { message: String },
}

impl LaunchResult {
    pub fn tracking(message: String, process_id: Option<u32>) -> (result: LaunchResult)
        ensures
            result == (LaunchResult::Tracking { message, process_id }),
    {
        LaunchResult::Tracking { message, process_id }
    }

    pub fn failed(message: String) -> (result: LaunchResult)
        ensures
            result == (LaunchResult::Failed { message }),
    {
        LaunchResult::Failed { message }
    }
}

/// What stopping a game came to.
#[derive(Clone, Debug)]
pub struct StopResult {
    pub success: bool,
    pub message: String,
    pub terminated_count: u32,
}

impl StopResult {
    pub fn success(message: String, terminated_count: u32) -> (result: StopResult)
        ensures
            result == (StopResult { success: true, message, terminated_count }),
    {
        StopResult { success: true, message, terminated_count }
    }
}

/// A launch through Steam.
#[derive(Clone, Debug)]
pub struct ValidatedSteamLaunch {
    pub steam_launch_id: String,
    /// The id that the processes of the game carry; it differs from the
    /// launch id for games added to Steam by hand.
    pub steam_app_id: u32,
}

/// A launch from a local directory, as shown to users.
#[derive(Clone, Debug)]
pub struct ValidatedLocalLaunch {
    pub game_dir: String,
    pub executable_path: String,
}

/// The settings of a game that a launch depends on.
#[derive(Clone, Debug)]
pub struct GameLaunch {
    pub launch_type: String,
    pub steam_launch_id: Option<String>,
    pub localpath: Option<String>,
    pub executable: Option<String>,
    pub proton_profile: Option<String>,
}

/// Judges the lookup of a game.
pub fn load_game(found: Result<Option<GameLaunch>, String>, game_id: u32) -> (result: Result<
    GameLaunch,
    String,
>)
    ensures
        match found {
            Ok(Some(game)) => result == Ok::<GameLaunch, String>(game),
            Ok(None) => result matches Err(text) && text@ == "游戏不存在: "@ + decimal(
                game_id as nat,
            ),
            Err(error) => result matches Err(text) && text@ == "查询游戏失败: "@ + error@,
        },
{
    match found {
        Ok(Some(game)) => Ok(game),
        Ok(None) => Err(cat2("游戏不存在: ", decimal_text(game_id as u64).as_str())),
        Err(error) => Err(cat2("查询游戏失败: ", error.as_str())),
    }
}

/// What the file system says about a local game.
#[derive(Debug)]
pub struct LocalLook {
    /// The configured directory, resolved, if one is configured.
    pub game_dir: Result<String, String>,
    pub game_dir_is_dir: bool,
    /// The executable in that directory, if both are configured.
    pub executable_path: String,
    pub executable_is_file: bool,
}

/// Why a local launch is impossible; the first fault counts.
pub open spec fn local_fault(game: GameLaunch, look: LocalLook) -> Option<Seq<char>> {
    if game.launch_type@ != "local"@ {
        Some("不支持的游戏启动方式: "@ + game.launch_type@)
    } else if game.localpath is None {
        Some("游戏目录未设置"@)
    } else {
        match look.game_dir {
            Err(text) => Some("游戏目录解析失败: "@ + text@),
            Ok(dir) => if !look.game_dir_is_dir {
                Some("游戏目录不存在或不是文件夹: "@ + dir@)
            } else if game.executable is None {
                Some("游戏启动文件未设置"@)
            } else if !look.executable_is_file {
                Some("游戏启动文件不存在或不是文件: "@ + look.executable_path@)
            } else {
                None
            },
        }
    }
}

/// Judges a launch from a local directory.
pub fn validate_local_launch(game: &GameLaunch, look: &LocalLook) -> (result: Result<
    ValidatedLocalLaunch,
    String,
>)
    ensures
        match local_fault(*game, *look) {
            Some(text) => result matches Err(found) && found@ == text,
            None => result matches Ok(launch) && launch.game_dir@ == look.game_dir->Ok_0@
                && launch.executable_path@ == look.executable_path@,
        },
{
    if !same(game.launch_type.as_str(), "local") {
        return Err(cat2("不支持的游戏启动方式: ", game.launch_type.as_str()));
    }
    if game.localpath.is_none() {
        return Err("游戏目录未设置".to_owned());
    }
    let game_dir: &String = match &look.game_dir {
        Ok(dir) => dir,
        Err(text) => {
            return Err(cat2("游戏目录解析失败: ", text.as_str()));
        },
    };
    if !look.game_dir_is_dir {
        return Err(cat2("游戏目录不存在或不是文件夹: ", game_dir.as_str()));
    }
    if game.executable.is_none() {
        return Err("游戏启动文件未设置".to_owned());
    }
    if !look.executable_is_file {
        return Err(cat2("游戏启动文件不存在或不是文件: ", look.executable_path.as_str()));
    }
    Ok(
        ValidatedLocalLaunch {
            game_dir: game_dir.clone(),
            executable_path: look.executable_path.clone(),
        },
    )
}

/// The Steam launch id in a setting: a positive number.
pub open spec fn steam_id(setting: Option<Seq<char>>) -> Option<u64> {
    match setting {
        Some(text) => match number_value(trimmed(text)) {
            Ok(value) => if value > 0 {
                Some(value)
            } else {
                None
            },
            Err(_) => None,
        },
        None => None,
    }
}

/// Reads the Steam launch id of a game.
pub fn steam_launch_value(setting: &Option<String>) -> (result: Result<u64, String>)
    ensures
        match steam_id(option_view(*setting)) {
            Some(value) => result == Ok::<u64, String>(value),
            None => result matches Err(text) && text@
                == "Steam 启动 ID 无效，请重新关联 Steam 启动项"@,
        },
{
    if let Some(text) = setting {
        if let Ok(value) = parse_number(trim(text.as_str())) {
            if value > 0 {
                return Ok(value);
            }
        }
    }
    Err("Steam 启动 ID 无效，请重新关联 Steam 启动项".to_owned())
}

/// The address that makes Steam start a game.
pub fn steam_uri(launch_id: u64) -> (uri: String)
    ensures
        uri@ == "steam://rungameid/"@ + decimal(launch_id as nat),
{
    cat2("steam://rungameid/", decimal_text(launch_id).as_str())
}

/// A launch through Steam; `app_id` is what the launch id stands for.
pub fn validate_steam(launch_id: u64, app_id: Result<u32, String>) -> (result: Result<
    ValidatedSteamLaunch,
    String,
>)
    ensures
        match app_id {
            Ok(app_id) => result matches Ok(launch) && launch.steam_launch_id@ == decimal(
                launch_id as nat,
            ) && launch.steam_app_id == app_id,
            Err(_) => result matches Err(text) && text@
                == "Steam 启动 ID 无效，请重新关联 Steam 启动项"@,
        },
{
    match app_id {
        Ok(steam_app_id) => Ok(
            ValidatedSteamLaunch { steam_launch_id: decimal_text(launch_id), steam_app_id },
        ),
        Err(_) => Err("Steam 启动 ID 无效，请重新关联 Steam 启动项".to_owned()),
    }
}

/// What the watched directory of a Steam game came to.
#[derive(Debug)]
pub struct SteamDirectoryLook {
    pub resolved: Result<String, String>,
    pub is_dir: bool,
}

/// `result` is the directory that is watched for a game started by Steam.
pub open spec fn steam_directory_judged(
    setting: Option<String>,
    look: SteamDirectoryLook,
    result: Result<String, String>,
) -> bool {
    if !(setting matches Some(text) && trimmed(text@).len() > 0) {
        result matches Err(text) && text@
            == "Steam 游戏监控目录未设置，请重新关联 Steam 启动项"@
    } else {
        match look.resolved {
            Err(error) => result matches Err(text) && text@
                == "Steam 游戏监控目录解析失败: "@ + error@,
            Ok(dir) => if look.is_dir {
                result matches Ok(found) && found@ == dir@
            } else {
                result matches Err(text) && text@
                    == "Steam 游戏监控目录不存在，请重新关联 Steam 启动项: "@ + dir@
            },
        }
    }
}

/// The directory that is watched for a game started by Steam, where games are
/// recognised by their directory. `setting` is the configured one.
pub fn validate_steam_directory(setting: &Option<String>, look: &SteamDirectoryLook) -> (result:
    Result<String, String>)
    ensures
        steam_directory_judged(*setting, *look, result),
{
    let set: bool = match setting {
        Some(text) => trim(text.as_str()).unicode_len() > 0,
        None => false,
    };
    if !set {
        return Err("Steam 游戏监控目录未设置，请重新关联 Steam 启动项".to_owned());
    }
    match &look.resolved {
        Err(error) => Err(cat2("Steam 游戏监控目录解析失败: ", error.as_str())),
        Ok(dir) => {
            if look.is_dir {
                Ok(dir.clone())
            } else {
                Err(cat2("Steam 游戏监控目录不存在，请重新关联 Steam 启动项: ", dir.as_str()))
            }
        },
    }
}

/// How a game is stopped.
#[derive(Clone, Copy, Debug, PartialEq, Eq, Structural)]
pub enum StopPlan {
    /// By the processes of a Steam game, given its launch id.
    Steam(u64),
    /// By the session that was started.
    Session,
}

/// `result` is how a game is stopped, if it can be.
pub open spec fn stop_planned(game: GameLaunch, result: Result<StopPlan, String>) -> bool {
    if game.launch_type@ == "steam"@ {
        match steam_id(option_view(game.steam_launch_id)) {
            Some(value) => result == Ok::<StopPlan, String>(StopPlan::Steam(value)),
            None => result matches Err(text) && text@
                == "Steam 启动 ID 无效，请重新关联 Steam 启动项"@,
        }
    } else {
        result == Ok::<StopPlan, String>(StopPlan::Session)
    }
}

/// Decides how a game is stopped.
pub fn plan_stop(game: &GameLaunch) -> (result: Result<StopPlan, String>)
    ensures
        stop_planned(*game, result),
{
    if same(game.launch_type.as_str(), "steam") {
        match steam_launch_value(&game.steam_launch_id) {
            Ok(value) => Ok(StopPlan::Steam(value)),
            Err(text) => Err(text),
        }
    } else {
        Ok(StopPlan::Session)
    }
}

/// `result` is what stopping a game came to.
pub open spec fn stop_reported(
    game_id: u32,
    plan: StopPlan,
    stopped: Result<u32, String>,
    result: Result<StopResult, String>,
) -> bool {
    match stopped {
        Ok(count) => result matches Ok(done) && done.success && done.terminated_count == count
            && done.message@ == "成功停止游戏 "@ + decimal(game_id as nat) + "，终止进程数: "@
            + decimal(count as nat),
        Err(error) => result matches Err(text) && text@ == match plan {
            StopPlan::Steam(_) => error@,
            StopPlan::Session => "停止游戏 "@ + decimal(game_id as nat) + " 失败: "@ + error@,
        },
    }
}

/// The result of stopping a game with the given plan; `stopped` counts the
/// processes that were ended.
pub fn stop_game(game_id: u32, plan: StopPlan, stopped: Result<u32, String>) -> (result: Result<
    StopResult,
    String,
>)
    ensures
        stop_reported(game_id, plan, stopped, result),
{
    match stopped {
        Ok(count) => Ok(
            StopResult::success(
                cat4(
                    "成功停止游戏 ",
                    decimal_text(game_id as u64).as_str(),
                    "，终止进程数: ",
                    decimal_text(count as u64).as_str(),
                ),
                count,
            ),
        ),
        Err(error) => match plan {
            StopPlan::Steam(_) => Err(error),
            StopPlan::Session => Err(
                cat4(
                    "停止游戏 ",
                    decimal_text(game_id as u64).as_str(),
                    " 失败: ",
                    error.as_str(),
                ),
            ),
        },
    }
}

/// Message of a Steam launch id that stands for no game, when stopping.
pub fn unknown_app_message(error: &str) -> (text: String)
    ensures
        text@ == error@ + "，请重新关联 Steam 启动项"@,
{
    cat2(error, "，请重新关联 Steam 启动项")
}

/// A local launch is possible exactly if the game is a local one, its
/// directory is set, resolves and is a directory, and its executable is set
/// and is a file.
pub proof fn local_launches_need_directory_and_file(game: GameLaunch, look: LocalLook)
    ensures
        local_fault(game, look) is None <==> {
            &&& game.launch_type@ == "local"@
            &&& game.localpath is Some
            &&& look.game_dir is Ok
            &&& look.game_dir_is_dir
            &&& game.executable is Some
            &&& look.executable_is_file
        },
{
}

/// A Steam launch id is a number above zero, with or without blanks around
/// it; anything else is none.
pub proof fn steam_ids_are_positive_numbers(setting: Option<Seq<char>>, value: u64)
    ensures
        steam_id(setting) == Some(value) <==> value > 0 && (setting matches Some(text)
            && number_value(trimmed(text)) == Ok::<u64, crate::text::number::NumberError>(value)),
{
}

/// A Steam game is stopped by its launch id, which has to be valid; any other
/// by its session.
pub proof fn steam_games_are_stopped_by_id(game: GameLaunch, result: Result<StopPlan, String>)
    requires
        stop_planned(game, result),
    ensures
        game.launch_type@ != "steam"@ ==> result == Ok::<StopPlan, String>(StopPlan::Session),
        game.launch_type@ == "steam"@ ==> (result is Ok <==> steam_id(
            option_view(game.steam_launch_id),
        ) is Some),
        result matches Ok(StopPlan::Steam(id)) ==> steam_id(option_view(game.steam_launch_id))
            == Some(id) && game.launch_type@ == "steam"@ && id > 0,
{
}

/// Stopping succeeds exactly if the processes could be ended, and reports how
/// many were.
pub proof fn stops_count_their_processes(
    game_id: u32,
    plan: StopPlan,
    stopped: Result<u32, String>,
    result: Result<StopResult, String>,
)
    requires
        stop_reported(game_id, plan, stopped, result),
    ensures
        result is Ok <==> stopped is Ok,
        result matches Ok(done) ==> done.success && done.terminated_count == stopped->Ok_0,
        result matches Err(text) ==> stopped->Err_0@.is_suffix_of(text@),
{
    if let Err(text) = result {
        let cause = stopped->Err_0@;
        assert(text@.subrange(text@.len() - cause.len(), text@.len() as int) =~= cause);
    }
}

/// The watched directory is the one that was configured, not blank, and is
/// there.
pub proof fn watched_directories_exist(
    setting: Option<String>,
    look: SteamDirectoryLook,
    result: Result<String, String>,
)
    requires
        steam_directory_judged(setting, look, result),
    ensures
        result is Ok <==> (setting matches Some(text) && trimmed(text@).len() > 0)
            && look.resolved is Ok && look.is_dir,
        result matches Ok(dir) ==> dir@ == look.resolved->Ok_0@,
{
}

} // verus!
