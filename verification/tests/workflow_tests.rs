use apex_voice_switcher::install::{
    place_step, removal_targets, Attempt, FileWalk, InstallError, InstallMethod, InstallRun,
    InstallState, MethodSet, Placement, RemovalRun,
};
use apex_voice_switcher::language::language_at;
use apex_voice_switcher::path::{FsPath, PathPart, WinPrefix};
use apex_voice_switcher::ui::{
    build_changed, build_update_prompt, busy_status, cleaned_status, cleanup_failed_status,
    depot_delete_failed_status, depot_status, failed_status, install_gate, invalid_game_status,
    language_label, no_voice_status, removal_prompt, removed_status, unverified_depot_prompt,
    InstallGate,
};
use apex_voice_switcher::workflow::{InstallAction, InstallEvent, InstallJob, Stage};

fn path(names: &[&str]) -> FsPath {
    FsPath { parts: names.iter().map(|s| PathPart::Normal(s.to_string())).collect() }
}

#[test]
fn only_reports_known_different_builds() {
    assert!(!build_changed(None, "123"));
    assert!(!build_changed(Some("123"), "123"));
    assert!(build_changed(Some("456"), "123"));
}

fn walk_depot() -> FileWalk {
    let root = path(&["depot", "audio", "ship"]);
    let mut walk = FileWalk::new(&root, true);
    let d = walk.next_dir().unwrap();
    assert_eq!(d, root);
    walk.add_entry("general.mstr", false);
    walk.add_entry("sub", true);
    walk.add_entry("other", true);
    let d = walk.next_dir().unwrap();
    assert_eq!(d, path(&["depot", "audio", "ship", "other"]));
    walk.add_entry("b.mstr", false);
    let d = walk.next_dir().unwrap();
    assert_eq!(d, path(&["depot", "audio", "ship", "sub"]));
    walk.add_entry("a.mstr", false);
    assert!(walk.finished());
    assert_eq!(walk.next_dir(), None);
    walk
}

#[test]
fn walk_of_missing_directory_is_empty() {
    let mut walk = FileWalk::new(&path(&["nothing"]), false);
    assert!(walk.finished());
    assert_eq!(walk.next_dir(), None);
    let run = InstallRun::start(walk, path(&["game", "audio", "ship"]));
    assert_eq!(run.err(), Some(InstallError::NoFiles));
}

#[test]
fn install_run_records_and_rolls_back() {
    let walk = walk_depot();
    let dest = path(&["game", "audio", "ship"]);
    let mut run = InstallRun::start(walk, dest.clone_path()).ok().unwrap();
    let first = run.next_file().unwrap();
    assert_eq!(first.file, path(&["depot", "audio", "ship", "general.mstr"]));
    assert_eq!(first.relative, path(&["general.mstr"]));
    assert_eq!(first.target, path(&["game", "audio", "ship", "general.mstr"]));
    assert_eq!(run.clear_target(false, '/'), Ok(Attempt::HardLink));
    assert_eq!(run.attempted(false), Placement::Try(Attempt::SymbolicLink));
    assert_eq!(run.attempted(true), Placement::Placed(InstallMethod::SymbolicLink));
    let second = run.next_file().unwrap();
    assert_eq!(second.relative, path(&["other", "b.mstr"]));
    run.clear_target(false, '/').unwrap();
    assert_eq!(run.attempted(true), Placement::Placed(InstallMethod::HardLink));
    assert_eq!(
        run.rollback_targets(),
        vec![path(&["game", "audio", "ship", "general.mstr"]), path(&["game", "audio", "ship", "other", "b.mstr"])]
    );
    let third = run.next_file().unwrap();
    assert_eq!(
        run.clear_target(true, '\\'),
        Err(InstallError::TargetExists("sub\\a.mstr".to_string()))
    );
    assert_eq!(third.target, path(&["game", "audio", "ship", "sub", "a.mstr"]));
    run.clear_target(false, '/').unwrap();
    assert_eq!(run.attempted(false), Placement::Try(Attempt::SymbolicLink));
    assert_eq!(run.attempted(false), Placement::Try(Attempt::Rename));
    assert_eq!(run.attempted(false), Placement::Try(Attempt::Copy));
    assert_eq!(run.attempted(true), Placement::Try(Attempt::RemoveSource));
    assert_eq!(run.attempted(true), Placement::Placed(InstallMethod::Moved));
    assert!(run.next_file().is_none());
    let state = run.finish("20512345", language_at(3).unwrap()).ok().unwrap();
    assert_eq!(state.build_id, "20512345");
    assert_eq!(state.game_directory, path(&["game"]));
    assert_eq!(state.language, "日语");
    assert_eq!(state.installation_method, "混合方式（硬链接、移动文件、符号链接）");
    assert_eq!(
        state.files,
        vec![path(&["general.mstr"]), path(&["other", "b.mstr"]), path(&["sub", "a.mstr"])]
    );
    // Removing what was recorded deletes exactly what was installed.
    assert_eq!(
        removal_targets(&state),
        vec![
            path(&["game", "audio", "ship", "general.mstr"]),
            path(&["game", "audio", "ship", "other", "b.mstr"]),
            path(&["game", "audio", "ship", "sub", "a.mstr"]),
        ]
    );
}

trait ClonePath {
    fn clone_path(&self) -> FsPath;
}

impl ClonePath for FsPath {
    fn clone_path(&self) -> FsPath {
        self.copy()
    }
}

#[test]
fn method_names() {
    let one = MethodSet::none().with(InstallMethod::HardLink);
    assert_eq!(one.text(), "硬链接");
    let two = MethodSet::none().with(InstallMethod::SymbolicLink).with(InstallMethod::HardLink);
    assert_eq!(two.text(), "混合方式（硬链接、符号链接）");
    assert_eq!(MethodSet::none().with(InstallMethod::Moved).text(), "移动文件");
}

#[test]
fn install_into_root_has_no_game_directory() {
    let root = path(&["src"]);
    let mut walk = FileWalk::new(&root, true);
    walk.next_dir();
    walk.add_entry("f", false);
    let mut run = InstallRun::start(walk, path(&["ship"])).ok().unwrap();
    run.clear_target(false, '/').unwrap();
    run.attempted(true);
    let err = run.finish("1", language_at(0).unwrap()).err().unwrap();
    assert_eq!(err, InstallError::InvalidGamePath);
    assert_eq!(err.message(), "游戏路径无效");
    assert_eq!(InstallError::NoFiles.message(), "Depot audio/ship 内没有文件。");
    assert_eq!(
        InstallError::TargetExists("a\\b.mstr".to_string()).message(),
        "目标文件已存在，未覆盖：a\\b.mstr。请先在 Steam 验证游戏文件，或选择其他语音语言。"
    );
}

#[test]
fn removal_skips_paths_that_leave_ship() {
    let state = InstallState {
        build_id: "1".to_string(),
        game_directory: path(&["game"]),
        language: "法语".to_string(),
        installation_method: "硬链接".to_string(),
        files: vec![
            path(&["a.mstr"]),
            FsPath { parts: vec![PathPart::ParentDir, PathPart::Normal("x".to_string())] },
            FsPath { parts: vec![PathPart::RootDir, PathPart::Normal("y".to_string())] },
            FsPath { parts: vec![PathPart::Prefix(WinPrefix::Disk(b'C')), PathPart::Normal("z".to_string())] },
            path(&["d", "b.mstr"]),
        ],
    };
    assert_eq!(
        removal_targets(&state),
        vec![path(&["game", "audio", "ship", "a.mstr"]), path(&["game", "audio", "ship", "d", "b.mstr"])]
    );
    let prompt = removal_prompt(&state);
    assert_eq!(prompt.title, "确认删除已安装语音");
    assert_eq!(prompt.message, "将删除 法语 语音对应的 5 个文件/链接。\n安装方式：硬链接");
    assert!(prompt.is_danger);
    assert_eq!(prompt.primary, "确认删除");
    assert_eq!(prompt.secondary, "");
    assert_eq!(prompt.cancel, "取消");
}

fn run_job(job: &mut InstallJob, events: Vec<InstallEvent>) -> Vec<InstallAction> {
    events.into_iter().map(|e| job.step(e)).collect()
}

#[test]
fn install_with_fresh_download() {
    let lang = language_at(3).unwrap();
    let (mut job, first) = InstallJob::start("  player_1 ", lang);
    assert_eq!(first, InstallAction::ReadGameBuild);
    let actions = run_job(
        &mut job,
        vec![
            InstallEvent::GameBuild(Some("777".to_string())),
            InstallEvent::DepotPresent(false),
            InstallEvent::DepotPresent(false),
            InstallEvent::Completed,
            InstallEvent::Exited(0),
            InstallEvent::DepotPresent(true),
            InstallEvent::Completed,
            InstallEvent::Completed,
            InstallEvent::Installed { method: "硬链接".to_string(), files: 12 },
        ],
    );
    assert_eq!(
        actions,
        vec![
            InstallAction::CheckDepot,
            InstallAction::CheckDepot,
            InstallAction::PrepareSteamCmd,
            InstallAction::Download("player_1".to_string()),
            InstallAction::CheckDepot,
            InstallAction::WriteDepotBuild("777".to_string()),
            InstallAction::RemovePreviousVoice,
            InstallAction::InstallVoice("777".to_string()),
            InstallAction::Finish(Ok((
                "日语语音安装完成".to_string(),
                "已通过“硬链接”安装 12 个语音文件。".to_string()
            ))),
        ]
    );
    assert_eq!(job.stage(), Stage::Finished);
}

#[test]
fn install_deletes_stale_depot() {
    let lang = language_at(0).unwrap();
    let (mut job, _) = InstallJob::start("u", lang);
    let actions = run_job(
        &mut job,
        vec![
            InstallEvent::GameBuild(Some("2".to_string())),
            InstallEvent::DepotPresent(true),
            InstallEvent::DepotBuild(Some("1".to_string())),
            InstallEvent::Completed,
            InstallEvent::DepotPresent(false),
        ],
    );
    assert_eq!(
        actions,
        vec![
            InstallAction::CheckDepot,
            InstallAction::ReadDepotBuild,
            InstallAction::DeleteDepot,
            InstallAction::CheckDepot,
            InstallAction::PrepareSteamCmd,
        ]
    );
}

#[test]
fn install_reuses_matching_or_unmarked_depot() {
    for cached in [Some("5".to_string()), None] {
        let (mut job, _) = InstallJob::start("", language_at(1).unwrap());
        let actions = run_job(
            &mut job,
            vec![
                InstallEvent::GameBuild(Some("5".to_string())),
                InstallEvent::DepotPresent(true),
                InstallEvent::DepotBuild(cached),
                InstallEvent::DepotPresent(true),
            ],
        );
        assert_eq!(
            actions,
            vec![
                InstallAction::CheckDepot,
                InstallAction::ReadDepotBuild,
                InstallAction::CheckDepot,
                InstallAction::WriteDepotBuild("5".to_string()),
            ]
        );
    }
}

#[test]
fn install_failures() {
    let lang = language_at(0).unwrap();
    let (mut job, _) = InstallJob::start("u", lang);
    assert_eq!(
        job.step(InstallEvent::GameBuild(None)),
        InstallAction::Finish(Err("无法读取游戏 Build ID".to_string()))
    );

    let (mut job, _) = InstallJob::start(" \t ", lang);
    let actions = run_job(
        &mut job,
        vec![
            InstallEvent::GameBuild(Some("1".to_string())),
            InstallEvent::DepotPresent(false),
            InstallEvent::DepotPresent(false),
        ],
    );
    assert_eq!(
        actions[2],
        InstallAction::Finish(Err(
            "需要 Steam 用户名。密码及 Steam Guard 将在 SteamCMD 窗口输入。".to_string()
        ))
    );

    let (mut job, _) = InstallJob::start("u", lang);
    let actions = run_job(
        &mut job,
        vec![
            InstallEvent::GameBuild(Some("1".to_string())),
            InstallEvent::DepotPresent(false),
            InstallEvent::DepotPresent(false),
            InstallEvent::Completed,
            InstallEvent::Exited(-1),
        ],
    );
    assert_eq!(
        actions[4],
        InstallAction::Finish(Err("SteamCMD 未完成 Depot 下载（退出码 -1）。".to_string()))
    );

    let (mut job, _) = InstallJob::start("u", lang);
    let actions = run_job(
        &mut job,
        vec![
            InstallEvent::GameBuild(Some("1".to_string())),
            InstallEvent::DepotPresent(false),
            InstallEvent::DepotPresent(false),
            InstallEvent::Completed,
            InstallEvent::Exited(0),
            InstallEvent::DepotPresent(false),
        ],
    );
    assert_eq!(
        actions[5],
        InstallAction::Finish(Err("SteamCMD 未完成 Depot 下载（退出码 0）。".to_string()))
    );

    let (mut job, _) = InstallJob::start("u", lang);
    let actions = run_job(
        &mut job,
        vec![
            InstallEvent::GameBuild(Some("1".to_string())),
            InstallEvent::DepotPresent(true),
            InstallEvent::DepotBuild(Some("1".to_string())),
            InstallEvent::DepotPresent(true),
            InstallEvent::Failed("disk full".to_string()),
        ],
    );
    assert_eq!(actions[4], InstallAction::Finish(Err("disk full".to_string())));
}

#[test]
fn depot_statuses() {
    let lang = language_at(5).unwrap();
    let s = depot_status(lang, false, &None, &None);
    assert_eq!(s.install_label, "下载并安装语音");
    assert_eq!(s.status.title, "尚未下载");
    assert_eq!(s.status.message, "将通过 SteamCMD 下载 简体中文 Depot 1172477。");
    let s = depot_status(lang, true, &Some("1".to_string()), &Some("2".to_string()));
    assert_eq!(s.install_label, "更新并安装语音");
    assert_eq!(s.status.title, "已有 Depot 与当前游戏版本不同");
    assert_eq!(s.status.message, "安装时将删除并重新下载。");
    for (cached, game) in [(Some("1"), Some("1")), (None, Some("1")), (Some("1"), None)] {
        let s = depot_status(lang, true, &cached.map(String::from), &game.map(String::from));
        assert_eq!(s.install_label, "安装已有语音");
        assert_eq!(s.status.title, "已发现下载好的语言 Depot");
        assert_eq!(s.status.message, "简体中文 Depot 1172477 已存在，不会重新下载。");
    }
}

#[test]
fn prompts_and_messages() {
    let lang = language_at(0).unwrap();
    assert_eq!(language_label(lang), "法语（Depot 1172472）");
    let p = unverified_depot_prompt(lang);
    assert_eq!(p.title, "发现未标记版本的 Depot 缓存");
    assert_eq!(
        p.message,
        "已存在 法语（Depot 1172472）缓存文件，但无法确认是否匹配当前游戏版本。\n您可以选择直接沿用已有缓存，或删除旧缓存后重新下载。"
    );
    assert!(!p.is_danger);
    assert_eq!(p.secondary, "删除并重新下载");

    let state = InstallState {
        build_id: "100".to_string(),
        game_directory: path(&["game"]),
        language: "法语".to_string(),
        installation_method: "硬链接".to_string(),
        files: vec![],
    };
    assert!(build_update_prompt(&state, None).is_none());
    assert!(build_update_prompt(&state, Some("100")).is_none());
    let p = build_update_prompt(&state, Some("101")).unwrap();
    assert_eq!(p.title, "检测到游戏版本已更新");
    assert_eq!(
        p.message,
        "检测到 Apex Legends 已更新（已安装语音基于旧版本 100）。\n旧语音文件可能不兼容，必须清理已安装的 法语 语音文件后重新安装。"
    );
    assert_eq!(p.primary, "清理旧语音");
    assert_eq!(p.cancel, "");

    assert_eq!(install_gate(false, true, false), InstallGate::InvalidGame);
    assert_eq!(install_gate(true, true, false), InstallGate::ConfirmUnverifiedDepot);
    assert_eq!(install_gate(true, true, true), InstallGate::Proceed);
    assert_eq!(install_gate(true, false, false), InstallGate::Proceed);

    let s = removed_status(3);
    assert_eq!(s.title, "语音已删除");
    assert_eq!(s.message, "已删除 3 个文件/链接。");
    let s = cleaned_status(0);
    assert_eq!(s.title, "旧语音已清理");
    assert_eq!(s.message, "已删除 0 个旧文件。请选择所需语言重新下载安装。");
}

#[test]
fn link_preference_order() {
    assert_eq!(place_step(Attempt::HardLink, true), Placement::Placed(InstallMethod::HardLink));
    assert_eq!(place_step(Attempt::HardLink, false), Placement::Try(Attempt::SymbolicLink));
    assert_eq!(place_step(Attempt::SymbolicLink, false), Placement::Try(Attempt::Rename));
    assert_eq!(place_step(Attempt::Rename, true), Placement::Placed(InstallMethod::Moved));
    assert_eq!(place_step(Attempt::Copy, false), Placement::Failed);
    assert_eq!(place_step(Attempt::RemoveSource, false), Placement::Failed);
}

#[test]
fn failed_copy_records_nothing() {
    let mut walk = FileWalk::new(&path(&["src"]), true);
    walk.next_dir();
    walk.add_entry("f", false);
    let mut run = InstallRun::start(walk, path(&["game", "audio", "ship"])).ok().unwrap();
    run.clear_target(false, '/').unwrap();
    run.attempted(false);
    run.attempted(false);
    run.attempted(false);
    assert_eq!(run.attempted(false), Placement::Failed);
    assert!(run.rollback_targets().is_empty());
    assert!(run.next_file().is_some());
}

#[test]
fn fixed_status_texts() {
    let s = invalid_game_status();
    assert_eq!(s.title, "Apex Legends 目录无效");
    assert_eq!(s.message, "请选择包含 audio\\ship 且由 Steam 管理的 Apex Legends 目录。");
    assert_eq!(busy_status().title, "正在处理");
    assert_eq!(busy_status().message, "耗时操作在后台运行，请等待。");
    assert_eq!(failed_status("x").title, "操作失败");
    assert_eq!(failed_status("x").message, "x");
    assert_eq!(no_voice_status().title, "没有可删除的语音");
    assert_eq!(no_voice_status().message, "当前没有由本工具记录的已安装语音文件。");
    assert_eq!(cleanup_failed_status("e").title, "无法删除旧语音");
    assert_eq!(depot_delete_failed_status("e").title, "无法删除旧 Depot");
    assert_eq!(depot_delete_failed_status("e").message, "e");
}

#[test]
fn removal_run_counts_deleted_files() {
    let state = InstallState {
        build_id: "1".to_string(),
        game_directory: path(&["game"]),
        language: "法语".to_string(),
        installation_method: "硬链接".to_string(),
        files: vec![
            path(&["a.mstr"]),
            FsPath { parts: vec![PathPart::ParentDir, PathPart::Normal("x".to_string())] },
            path(&["d", "b.mstr"]),
            path(&["c.mstr"]),
        ],
    };
    let mut run = RemovalRun::start(&state);
    assert_eq!(run.next_target(), Some(path(&["game", "audio", "ship", "a.mstr"])));
    run.deleted();
    assert_eq!(run.next_target(), Some(path(&["game", "audio", "ship", "d", "b.mstr"])));
    assert_eq!(run.next_target(), Some(path(&["game", "audio", "ship", "c.mstr"])));
    run.deleted();
    assert_eq!(run.next_target(), None);
    assert_eq!(run.next_target(), None);
    assert_eq!(run.removed(), 2);
}
