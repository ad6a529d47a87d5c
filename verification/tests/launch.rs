use reina_manager::launch::common::{
    load_game, plan_stop, steam_launch_value, steam_uri, stop_game, unknown_app_message,
    validate_local_launch, validate_steam, validate_steam_directory, GameLaunch, LaunchResult,
    LocalLook, SteamDirectoryLook, StopPlan,
};
use reina_manager::launch::linux::{
    build_exec, expand_path, launcher_command, Launch, LaunchAction, LocalGame, PROTON_POLL,
    PROTON_WATCH,
};
use reina_manager::launch::proton::{
    find_helper_command, install_command, install_message, judge_install, unpack_command,
    CommandGuiExt, InstallFailure, InstallPoll, InstallStep, Stdio,
};
use reina_manager::launch::scope::{
    check_unit, gate_opens, job_wait_message, judge_job, reported_pid, reset_message,
    scope_message, unit_description, unit_name, JobSignal, JobWaitFailure, ScopeFailure,
    ScopeSpawn, SpawnAction, SpawnEnd, UnitLook, UnitStep, GATE_ABANDON_BYTE, GATE_RELEASE_BYTE,
};

fn texts(values: &[&str]) -> Vec<String> {
    values.iter().map(|value| value.to_string()).collect()
}

fn local(profile: Option<&str>) -> GameLaunch {
    GameLaunch {
        launch_type: "local".to_string(),
        steam_launch_id: None,
        localpath: Some("/games/x".to_string()),
        executable: Some("x.exe".to_string()),
        proton_profile: profile.map(str::to_string),
    }
}

fn steam(id: Option<&str>) -> GameLaunch {
    GameLaunch {
        launch_type: "steam".to_string(),
        steam_launch_id: id.map(str::to_string),
        localpath: None,
        executable: None,
        proton_profile: None,
    }
}

fn look() -> LocalLook {
    LocalLook {
        game_dir: Ok("/games/x".to_string()),
        game_dir_is_dir: true,
        executable_path: "/games/x/x.exe".to_string(),
        executable_is_file: true,
    }
}

fn local_game(name: &str) -> LocalGame {
    LocalGame {
        look: look(),
        exe_name: Some(name.to_string()),
        game_dir_quoted: "\"/games/x\"".to_string(),
    }
}

fn failed(action: LaunchAction) -> String {
    match action {
        LaunchAction::Finish(LaunchResult::Failed { message }) => message,
        other => panic!("not failed: {other:?}"),
    }
}

fn spawned(action: LaunchAction) -> (String, Vec<String>) {
    match action {
        LaunchAction::Spawn(plan) => (plan.program, plan.args),
        other => panic!("nothing to start: {other:?}"),
    }
}

#[test]
fn results_are_built() {
    match LaunchResult::tracking("已监控".to_string(), Some(42)) {
        LaunchResult::Tracking {
            message,
            process_id,
        } => assert_eq!((message.as_str(), process_id), ("已监控", Some(42))),
        _ => panic!("tracking"),
    }
    match LaunchResult::failed("失败".to_string()) {
        LaunchResult::Failed { message } => assert_eq!(message, "失败"),
        _ => panic!("failed"),
    }
    assert!(load_game(Ok(Some(local(None))), 3).is_ok());
    assert_eq!(load_game(Ok(None), 3).err().unwrap(), "游戏不存在: 3");
    assert_eq!(load_game(Err("x".to_string()), 3).err().unwrap(), "查询游戏失败: x");
}

#[test]
fn local_launches_are_validated_in_order() {
    let found = validate_local_launch(&local(None), &look()).unwrap();
    assert_eq!(found.executable_path, "/games/x/x.exe");
    let fault = |game: &GameLaunch, change: fn(&mut LocalLook)| {
        let mut look = look();
        change(&mut look);
        validate_local_launch(game, &look).err().unwrap()
    };
    let mut other = local(None);
    other.launch_type = "web".to_string();
    assert_eq!(fault(&other, |_| {}), "不支持的游戏启动方式: web");
    let mut unset = local(None);
    unset.localpath = None;
    assert_eq!(fault(&unset, |_| {}), "游戏目录未设置");
    let mut bare = local(None);
    bare.executable = None;
    assert_eq!(fault(&bare, |_| {}), "游戏启动文件未设置");
    let game = local(None);
    assert_eq!(
        fault(&game, |look| look.game_dir = Err("x".to_string())),
        "游戏目录解析失败: x"
    );
    assert_eq!(
        fault(&game, |look| look.game_dir_is_dir = false),
        "游戏目录不存在或不是文件夹: /games/x"
    );
    assert_eq!(
        fault(&game, |look| look.executable_is_file = false),
        "游戏启动文件不存在或不是文件: /games/x/x.exe"
    );
}

#[test]
fn steam_ids_are_positive_numbers() {
    let id = |text: &str| steam_launch_value(&Some(text.to_string()));
    assert_eq!(id(" 480 ").unwrap(), 480);
    assert_eq!(id("18446744073709551615").unwrap(), u64::MAX);
    for text in ["0", "", "x", "-1", "18446744073709551616"] {
        assert_eq!(id(text).unwrap_err(), "Steam 启动 ID 无效，请重新关联 Steam 启动项");
    }
    assert!(steam_launch_value(&None).is_err());
    assert_eq!(steam_uri(480), "steam://rungameid/480");
    let launch = validate_steam(480, Ok(7)).unwrap();
    assert_eq!((launch.steam_launch_id.as_str(), launch.steam_app_id), ("480", 7));
    assert!(validate_steam(480, Err("x".to_string())).is_err());
    let look = |resolved: Result<&str, &str>, is_dir| SteamDirectoryLook {
        resolved: resolved.map(str::to_string).map_err(str::to_string),
        is_dir,
    };
    let set = Some("/g".to_string());
    assert_eq!(validate_steam_directory(&set, &look(Ok("/g"), true)).unwrap(), "/g");
    assert_eq!(
        validate_steam_directory(&set, &look(Ok("/g"), false)).unwrap_err(),
        "Steam 游戏监控目录不存在，请重新关联 Steam 启动项: /g"
    );
    assert_eq!(
        validate_steam_directory(&set, &look(Err("x"), false)).unwrap_err(),
        "Steam 游戏监控目录解析失败: x"
    );
    assert_eq!(
        validate_steam_directory(&Some(" ".to_string()), &look(Ok("/g"), true)).unwrap_err(),
        "Steam 游戏监控目录未设置，请重新关联 Steam 启动项"
    );
}

#[test]
fn games_are_stopped() {
    assert_eq!(plan_stop(&local(None)).unwrap(), StopPlan::Session);
    assert_eq!(plan_stop(&steam(Some("480"))).unwrap(), StopPlan::Steam(480));
    assert!(plan_stop(&steam(None)).is_err());
    let stopped = stop_game(3, StopPlan::Session, Ok(2)).unwrap();
    assert!(stopped.success);
    assert_eq!(stopped.terminated_count, 2);
    assert_eq!(stopped.message, "成功停止游戏 3，终止进程数: 2");
    assert_eq!(
        stop_game(3, StopPlan::Session, Err("x".to_string())).err().unwrap(),
        "停止游戏 3 失败: x"
    );
    assert_eq!(
        stop_game(3, StopPlan::Steam(1), Err("x".to_string())).err().unwrap(),
        "x"
    );
    assert_eq!(unknown_app_message("x"), "x，请重新关联 Steam 启动项");
}

#[test]
fn command_lines_are_built() {
    assert_eq!(launcher_command(&None, "wine64"), "wine64");
    assert_eq!(launcher_command(&Some("auto".to_string()), "wine"), "proton-autogen");
    assert_eq!(
        launcher_command(&Some("dx11".to_string()), "wine"),
        "proton-autogen --profile dx11"
    );
    let home = Some("/home/u".to_string());
    assert_eq!(expand_path("~/bin/wine ~", &home), "/home/u/bin/wine ~");
    assert_eq!(expand_path("~/bin/wine", &None), "~/bin/wine");
    assert_eq!(expand_path("wine", &home), "wine");
    let args = texts(&["-w", "日本"]);
    let plan = build_exec("proton-autogen --profile dx11", "x.exe", "/g/x.exe", &args);
    assert_eq!(plan.program, "proton-autogen");
    assert_eq!(plan.args, texts(&["--profile", "dx11", "/g/x.exe", "-w", "日本"]));
    let plan = build_exec("  ", "x.exe", "/g/x.exe", &args);
    assert_eq!(plan.program, "wine");
    assert_eq!(plan.args, texts(&["/g/x.exe", "-w", "日本"]));
    let plan = build_exec("wine", "x.sh", "/g/x.sh", &args);
    assert_eq!(plan.program, "/g/x.sh");
    assert_eq!(plan.args, args);
}

#[test]
fn steam_games_are_tracked() {
    let mut launch = Launch::new(3, Vec::new());
    let action = launch.on_game(&Ok(steam(Some("480"))));
    assert!(matches!(action, LaunchAction::ResolveSteamId(480)));
    let action = launch.on_steam_id(Ok(7));
    assert!(matches!(action, LaunchAction::OpenUri(uri) if uri == "steam://rungameid/480"));
    assert!(matches!(launch.on_steam_opened(Ok(())), LaunchAction::AwaitSteam(7)));
    assert!(matches!(
        launch.on_steam_process(Ok(99)),
        LaunchAction::MonitorSteam {
            process_id: 99,
            app_id: 7
        }
    ));
    match launch.on_monitored() {
        LaunchAction::Finish(LaunchResult::Tracking {
            message,
            process_id,
        }) => {
            assert_eq!(message, "已交由 Steam 启动游戏 (480)");
            assert_eq!(process_id, Some(99));
        }
        _ => panic!("tracking"),
    }
    let mut launch = Launch::new(3, Vec::new());
    launch.on_game(&Ok(steam(Some("480"))));
    launch.on_steam_id(Ok(7));
    launch.on_steam_opened(Ok(()));
    assert_eq!(
        failed(launch.on_steam_process(Err("超时".to_string()))),
        "超时，本次游玩未开始计时"
    );
    let mut launch = Launch::new(3, Vec::new());
    assert_eq!(
        failed(launch.on_game(&Ok(steam(None)))),
        "Steam 启动 ID 无效，请重新关联 Steam 启动项"
    );
    let mut launch = Launch::new(3, Vec::new());
    assert_eq!(failed(launch.on_game(&Err("查询游戏失败: x".to_string()))), "查询游戏失败: x");
}

#[test]
fn local_games_run_in_their_scope() {
    let mut launch = Launch::new(3, texts(&["-w"]));
    let game = local(None);
    assert!(matches!(launch.on_game(&Ok(local(None))), LaunchAction::LookAtLocal));
    let action = launch.on_local(&game, &local_game("x.exe"));
    assert!(matches!(action, LaunchAction::CheckUnit(unit) if unit == "reina_game_3.scope"));
    let (program, args) = spawned(launch.on_unit(&None, &None));
    assert_eq!((program.as_str(), args), ("wine", texts(&["/games/x/x.exe", "-w"])));
    let action = launch.on_spawned(Ok(50));
    assert!(matches!(
        action,
        LaunchAction::Monitor { process_id: 50, unit } if unit == "reina_game_3.scope"
    ));
    match launch.on_monitored() {
        LaunchAction::Finish(LaunchResult::Tracking { message, .. }) => {
            assert_eq!(message, "成功启动游戏: x.exe，工作目录: \"/games/x\"")
        }
        _ => panic!("tracking"),
    }
    let mut launch = Launch::new(3, Vec::new());
    launch.on_game(&Ok(local(None)));
    let mut unnamed = local_game("x");
    unnamed.exe_name = None;
    assert_eq!(failed(launch.on_local(&game, &unnamed)), "无法获取游戏可执行文件名");
}

fn watching(profile: &str) -> Launch {
    let mut launch = Launch::new(3, Vec::new());
    let game = local(Some(profile));
    launch.on_game(&Ok(local(Some(profile))));
    launch.on_local(&game, &local_game("x.exe"));
    let setting = Some("~/wine run".to_string());
    let (program, _) = spawned(launch.on_unit(&setting, &Some("/home/u".to_string())));
    assert_eq!(program, "proton-autogen");
    assert!(matches!(launch.on_spawned(Ok(50)), LaunchAction::CheckAlive(50)));
    launch
}

#[test]
fn proton_falls_back_once() {
    let mut launch = watching("dx11");
    let action = launch.on_alive(true, 0);
    assert!(matches!(action, LaunchAction::Sleep(pause) if pause == PROTON_POLL));
    assert!(matches!(launch.on_slept(), LaunchAction::CheckAlive(50)));
    assert!(matches!(launch.on_alive(false, 1), LaunchAction::CheckUnit(_)));
    let (program, args) = spawned(launch.on_unit_again());
    assert_eq!(
        (program.as_str(), args),
        ("/home/u/wine", texts(&["run", "/games/x/x.exe"]))
    );
    assert!(matches!(
        launch.on_respawned(Ok(51)),
        LaunchAction::Monitor { process_id: 51, .. }
    ));
    match launch.on_monitored() {
        LaunchAction::Finish(LaunchResult::Tracking { message, .. }) => assert_eq!(
            message,
            "proton-autogen 启动失败，已回退 Linux 启动命令启动: x.exe"
        ),
        _ => panic!("tracking"),
    }
    let mut launch = watching("auto");
    launch.on_alive(false, 1);
    launch.on_unit_again();
    assert_eq!(
        failed(launch.on_respawned(Err("x".to_string()))),
        "proton 启动失败且回退也失败: x，目录: \"/games/x\""
    );
    let mut launch = watching("auto");
    assert!(matches!(
        launch.on_alive(true, PROTON_WATCH),
        LaunchAction::Monitor { process_id: 50, .. }
    ));
}

#[test]
fn children_are_released_into_their_scope() {
    let mut spawn = ScopeSpawn::new();
    let bytes = 0x0102_0304u32.to_le_bytes();
    assert!(matches!(spawn.on_pid(Ok(bytes)), SpawnAction::CreateScope(0x0102_0304)));
    assert!(matches!(
        spawn.on_scope(Ok(())),
        SpawnAction::SendGate(byte) if byte == GATE_RELEASE_BYTE
    ));
    assert!(matches!(spawn.on_released(), SpawnAction::AwaitSpawn));
    assert!(matches!(
        spawn.on_spawned(SpawnEnd::Started),
        SpawnAction::Finish(Ok(0x0102_0304))
    ));
    assert!(gate_opens(GATE_RELEASE_BYTE));
    assert!(!gate_opens(GATE_ABANDON_BYTE));
    for value in [0u32, 1, 255, 256, u32::MAX] {
        assert_eq!(reported_pid(value.to_le_bytes()), value);
    }
}

#[test]
fn failed_starts_are_explained() {
    let fault = |action: SpawnAction| match action {
        SpawnAction::Finish(Err(text)) => text,
        other => panic!("not failed: {other:?}"),
    };
    let mut spawn = ScopeSpawn::new();
    assert!(matches!(spawn.on_pid(Err("断开".to_string())), SpawnAction::AwaitSpawn));
    assert_eq!(
        fault(spawn.on_spawned(SpawnEnd::Failed("无权限".to_string()))),
        "拉起游戏进程失败: 无权限（断开）"
    );
    let mut spawn = ScopeSpawn::new();
    spawn.on_pid(Err("断开".to_string()));
    assert_eq!(
        fault(spawn.on_spawned(SpawnEnd::Started)),
        "拉起游戏进程失败: 子进程未能回报 PID（断开）"
    );
    let mut spawn = ScopeSpawn::new();
    spawn.on_pid(Ok([1, 0, 0, 0]));
    assert!(matches!(
        spawn.on_scope(Err("拒绝".to_string())),
        SpawnAction::SendGate(byte) if byte == GATE_ABANDON_BYTE
    ));
    assert_eq!(fault(spawn.on_spawned(SpawnEnd::Failed("x".to_string()))), "拒绝");
    let mut spawn = ScopeSpawn::new();
    spawn.on_pid(Ok([1, 0, 0, 0]));
    spawn.on_scope(Ok(()));
    spawn.on_released();
    assert!(matches!(
        spawn.on_spawned(SpawnEnd::Failed("无文件".to_string())),
        SpawnAction::StopUnit
    ));
    assert_eq!(fault(spawn.on_unit_stopped()), "启动游戏进程失败: 无文件");
}

#[test]
fn systemd_is_understood() {
    assert_eq!(unit_name(3), "reina_game_3.scope");
    assert_eq!(unit_description(3), "ReinaManager 游戏进程 (game_id=3)");
    let signal = |job: &str, result: &str| JobSignal {
        job: job.to_string(),
        result: result.to_string(),
    };
    assert!(judge_job("/job/1", &signal("/job/2", "done")).is_none());
    assert!(judge_job("/job/1", &signal("/job/1", "done")).unwrap().is_ok());
    assert_eq!(
        judge_job("/job/1", &signal("/job/1", "failed")).unwrap().unwrap_err(),
        "systemd job 的执行结果为 failed"
    );
    assert_eq!(job_wait_message("/job/1", &JobWaitFailure::TimedOut), "等待 systemd job /job/1 超时");
    assert_eq!(
        job_wait_message("/job/1", &JobWaitFailure::StreamEnded),
        "systemd JobRemoved 信号流已结束"
    );
    let message = |failure: ScopeFailure| scope_message(3, "u", &failure);
    assert_eq!(
        message(ScopeFailure::Connect("x".to_string())),
        "连接到 systemd 失败，无法启动游戏 3: x"
    );
    assert_eq!(
        message(ScopeFailure::Subscribe("x".to_string())),
        "订阅 systemd JobRemoved 信号失败: x"
    );
    assert_eq!(message(ScopeFailure::Start("x".to_string())), "创建 systemd scope u 失败: x");
    assert_eq!(
        message(ScopeFailure::Property {
            name: "PIDs".to_string(),
            error: "x".to_string()
        }),
        "构建 PIDs 属性失败: x"
    );
    let step = |look: UnitLook| check_unit("u", &look);
    assert_eq!(step(UnitLook::Found("failed".to_string())).unwrap(), UnitStep::Reset);
    assert_eq!(step(UnitLook::Found("active".to_string())).unwrap(), UnitStep::Present);
    assert_eq!(step(UnitLook::Absent).unwrap(), UnitStep::Absent);
    assert_eq!(
        step(UnitLook::Unreachable("x".to_string())).unwrap_err(),
        "连接到 systemd 失败，无法检查或重置单元 u: x"
    );
    assert_eq!(
        step(UnitLook::Unknown("x".to_string())).unwrap_err(),
        "获取单元 u 状态失败: x"
    );
    assert_eq!(reset_message("u", "x"), "重置单元 u 状态失败: x");
}

#[test]
fn the_helper_is_installed() {
    let found = find_helper_command();
    assert_eq!(found.args, texts(&["-c", "command -v proton-autogen"]));
    assert_eq!((found.stdin, found.stdout), (Stdio::Inherit, Stdio::Null));
    let mut unpack = unpack_command("/c/pa.tar.gz", "/c");
    assert_eq!(
        unpack.args,
        texts(&["-xzf", "/c/pa.tar.gz", "--strip-components=1", "-C", "/c"])
    );
    assert_eq!(unpack.gui_safe().stderr, Stdio::Null);
    assert_eq!((unpack.stdin, unpack.stdout), (Stdio::Null, Stdio::Null));
    assert_eq!(install_command("/c/install.sh").args, texts(&["bash", "/c/install.sh"]));
    let judge = |poll: InstallPoll, late: bool| judge_install("/c", &poll, late);
    assert!(matches!(
        judge(InstallPoll::Ended(true), false),
        InstallStep::Finish(Ok(()))
    ));
    assert!(matches!(judge(InstallPoll::Running, false), InstallStep::Wait));
    assert!(matches!(
        judge(InstallPoll::Running, true),
        InstallStep::Kill(text) if text == "安装超时。\n可手动安装: sudo bash /c/install.sh"
    ));
    assert!(matches!(
        judge(InstallPoll::Ended(false), true),
        InstallStep::Finish(Err(text))
            if text == "安装未完成（取消了授权）。\n可手动安装: sudo bash /c/install.sh"
    ));
    assert!(matches!(
        judge(InstallPoll::Failed("x".to_string()), true),
        InstallStep::Finish(Err(text))
            if text == "等待安装进程失败: x\n可手动安装: sudo bash /c/install.sh"
    ));
    assert_eq!(
        install_message("/c", &InstallFailure::Download("x".to_string())),
        "下载 proton-autogen 失败: x"
    );
    assert_eq!(
        install_message("/c", &InstallFailure::Authorise("x".to_string())),
        "无法启动授权窗口: x\n可手动安装: sudo bash /c/install.sh"
    );
}
