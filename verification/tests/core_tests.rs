use apex_voice_switcher::language::{download_script, language_at, languages, launch_option, selected_language, ScriptError};
use apex_voice_switcher::path::{FsPath, PathPart, WinPrefix};
use apex_voice_switcher::steam::{
    app_manifest_path, audio_ship_directory, build_manifest_path, depot_build_id, depot_build_marker,
    depot_directory, depot_ship_directory, game_directory, library_folders_file, library_paths,
    manifest_name, state_path, steam_libraries, steam_registry_queries, steamcmd_directory,
    steamcmd_files, GameSearch, GameStep,
};
use apex_voice_switcher::vdf::{registry_value, vdf_value};

fn name(s: &str) -> PathPart {
    PathPart::Normal(s.to_string())
}

fn path(names: &[&str]) -> FsPath {
    FsPath { parts: names.iter().map(|s| name(s)).collect() }
}

fn windows_path(drive: &str, names: &[&str]) -> FsPath {
    let mut parts = vec![PathPart::Prefix(WinPrefix::Disk(drive.as_bytes()[0])), PathPart::RootDir];
    parts.extend(names.iter().map(|s| name(s)));
    FsPath { parts }
}

#[test]
fn parses_vdf_values() {
    assert_eq!(
        vdf_value(r#""buildid" "12345""#, "buildid").as_deref(),
        Some("12345")
    );
    assert_eq!(
        vdf_value(r#""path" "D:\\SteamLibrary""#, "path").as_deref(),
        Some(r"D:\SteamLibrary")
    );
}

#[test]
fn vdf_key_ignores_ascii_case() {
    let text = "\"AppState\"\n{\n\t\"BuildID\"\t\t\"20512345\"\n}\n";
    assert_eq!(vdf_value(text, "buildid").as_deref(), Some("20512345"));
    assert_eq!(vdf_value(text, "BUILDID").as_deref(), Some("20512345"));
}

#[test]
fn vdf_first_matching_line_wins() {
    let text = "\"installdir\"\t\"Apex Legends\"\r\n\"installdir\"\t\"Other\"\r\n";
    assert_eq!(vdf_value(text, "installdir").as_deref(), Some("Apex Legends"));
}

#[test]
fn vdf_line_needs_two_quoted_tokens() {
    assert_eq!(vdf_value("\"buildid\"\n", "buildid"), None);
    assert_eq!(vdf_value("\"buildid\" \"12", "buildid").as_deref(), Some("12"));
    assert_eq!(vdf_value("\"buildid\" \"1\"\n\"x\" \"2\"", "missing"), None);
    assert_eq!(vdf_value("", "buildid"), None);
}

#[test]
fn vdf_unescapes_pairs_from_the_left() {
    assert_eq!(
        vdf_value(r#""path" "a\\\b\\\\c""#, "path").as_deref(),
        Some(r"a\\b\\c")
    );
}

#[test]
fn reads_registry_output() {
    let output = "\r\nHKEY_CURRENT_USER\\Software\\Valve\\Steam\r\n    SteamPath    REG_SZ    c:/program files (x86)/steam\r\n\r\n";
    assert_eq!(registry_value(output).as_deref(), Some("c:/program files (x86)/steam"));
    assert_eq!(registry_value("ERROR: not found\n"), None);
    assert_eq!(registry_value("  X  REG_SZ\n").as_deref(), Some(""));
}

#[test]
fn registry_queries_in_order() {
    let q = steam_registry_queries();
    assert_eq!(q.len(), 2);
    assert_eq!(q[0].key, r"HKCU\Software\Valve\Steam");
    assert_eq!(q[0].value, "SteamPath");
    assert_eq!(q[1].key, r"HKLM\SOFTWARE\WOW6432Node\Valve\Steam");
    assert_eq!(q[1].value, "InstallPath");
}

#[test]
fn depot_build_record() {
    assert_eq!(depot_build_id(" 20512345\r\n").as_deref(), Some("20512345"));
    assert_eq!(depot_build_id("").as_deref(), Some(""));
    assert_eq!(depot_build_id("12a3"), None);
    assert_eq!(depot_build_id("１２"), None);
}

#[test]
fn download_script_for_valid_user() {
    assert_eq!(
        download_script("user_01", 1172475).unwrap(),
        "@ShutdownOnFailedCommand 1\n@NoPromptForPassword 0\nlogin user_01\ndownload_depot 1172470 1172475\nquit\n"
    );
}

#[test]
fn download_script_refuses_bad_user() {
    assert_eq!(download_script("", 1172475), Err(ScriptError::InvalidUsername));
    assert_eq!(download_script("a b", 1172475), Err(ScriptError::InvalidUsername));
    assert_eq!(download_script("名字", 1172475), Err(ScriptError::InvalidUsername));
    assert_eq!(
        ScriptError::InvalidUsername.message(),
        "Steam 用户名只能包含英文字母、数字和下划线。"
    );
}

#[test]
fn language_table() {
    let all = languages();
    assert_eq!(all.len(), 9);
    assert_eq!(all[0].name, "法语");
    assert_eq!(all[0].depot_id, 1172472);
    assert_eq!(all[3].launch_code, "japanese");
    assert_eq!(all[8].depot_id, 1172480);
    assert_eq!(all[8].launch_code, "spanish");
    assert_eq!(language_at(9), None);
    assert_eq!(selected_language(-1), None);
    assert_eq!(selected_language(5).unwrap().name, "简体中文");
}

#[test]
fn launch_options() {
    assert_eq!(launch_option(3).as_deref(), Some("+miles_language japanese"));
    assert_eq!(launch_option(5).as_deref(), Some("+miles_language schinese"));
    assert_eq!(launch_option(9), None);
    assert_eq!(launch_option(-1), None);
}

#[test]
fn game_paths() {
    let game = windows_path("D:", &["SteamLibrary", "steamapps", "common", "Apex Legends"]);
    assert_eq!(
        audio_ship_directory(&game),
        windows_path("D:", &["SteamLibrary", "steamapps", "common", "Apex Legends", "audio", "ship"])
    );
    assert_eq!(
        build_manifest_path(&game),
        Some(windows_path("D:", &["SteamLibrary", "steamapps", "appmanifest_1172470.acf"]))
    );
    let upper = windows_path("D:", &["SteamLibrary", "steamapps", "COMMON", "Apex Legends"]);
    assert!(build_manifest_path(&upper).is_some());
    let elsewhere = windows_path("D:", &["Games", "Apex Legends"]);
    assert_eq!(build_manifest_path(&elsewhere), None);
    assert_eq!(build_manifest_path(&FsPath { parts: vec![name("common")] }), None);
    assert_eq!(manifest_name(), "appmanifest_1172470.acf");
}

#[test]
fn steamcmd_paths() {
    let dir = steamcmd_directory(&path(&["tools"]));
    assert_eq!(dir, path(&["tools", "steamcmd"]));
    assert_eq!(
        depot_directory(&dir, 1172477),
        path(&["tools", "steamcmd", "steamapps", "content", "app_1172470", "depot_1172477"])
    );
    assert_eq!(
        depot_ship_directory(&dir, 1172477),
        path(&["tools", "steamcmd", "steamapps", "content", "app_1172470", "depot_1172477", "audio", "ship"])
    );
    assert_eq!(
        depot_build_marker(&dir, 1172477),
        path(&["tools", "steamcmd", "steamapps", "content", "app_1172470", "depot_1172477", ".apex-voice-build"])
    );
    let files = steamcmd_files(&dir);
    assert_eq!(files.executable, path(&["tools", "steamcmd", "steamcmd.exe"]));
    assert_eq!(files.archive, path(&["tools", "steamcmd", "steamcmd.zip"]));
    assert_eq!(files.script, path(&["tools", "steamcmd", "apex-voice-download.txt"]));
    assert_eq!(
        state_path(&path(&["local"])),
        path(&["local", "ApexLegendsVoiceSwitcher", "installed-voice.json"])
    );
}

#[test]
fn library_folders() {
    let text = "\"libraryfolders\"\n{\n\t\"0\"\n\t{\n\t\t\"path\"\t\t\"C:\\\\Program Files (x86)\\\\Steam\"\n\t}\n\t\"1\"\n\t{\n\t\t\"PATH\"\t\t\"D:\\\\SteamLibrary\"\n\t}\n}\n";
    assert_eq!(
        library_paths(text),
        vec![r"C:\Program Files (x86)\Steam".to_string(), r"D:\SteamLibrary".to_string()]
    );
    let steam = windows_path("C:", &["Steam"]);
    assert_eq!(
        library_folders_file(&steam),
        windows_path("C:", &["Steam", "steamapps", "libraryfolders.vdf"])
    );
    let found = vec![
        windows_path("C:", &["Steam"]),
        windows_path("D:", &["SteamLibrary"]),
        windows_path("D:", &["SteamLibrary"]),
        windows_path("E:", &["Games"]),
    ];
    assert_eq!(
        steam_libraries(&steam, &found),
        vec![windows_path("C:", &["Steam"]), windows_path("D:", &["SteamLibrary"]), windows_path("E:", &["Games"])]
    );
    let library = windows_path("D:", &["SteamLibrary"]);
    assert_eq!(
        app_manifest_path(&library),
        windows_path("D:", &["SteamLibrary", "steamapps", "appmanifest_1172470.acf"])
    );
    assert_eq!(
        game_directory(&library, &path(&["Apex Legends"])),
        windows_path("D:", &["SteamLibrary", "steamapps", "common", "Apex Legends"])
    );
    assert_eq!(
        game_directory(&library, &windows_path("E:", &["Apex"])),
        windows_path("E:", &["Apex"])
    );
    let rooted = FsPath { parts: vec![PathPart::RootDir, name("Apex")] };
    assert_eq!(
        game_directory(&library, &rooted),
        FsPath { parts: vec![PathPart::Prefix(WinPrefix::Disk(b'D')), PathPart::RootDir, name("Apex")] }
    );
}

#[test]
fn path_operations() {
    let p = windows_path("C:", &["a", "b"]);
    assert_eq!(p.parent(), Some(windows_path("C:", &["a"])));
    assert_eq!(windows_path("C:", &[]).parent(), None);
    assert_eq!(p.file_name().as_deref(), Some("b"));
    assert_eq!(p.strip_prefix(&windows_path("C:", &["a"])), Some(path(&["b"])));
    assert_eq!(p.strip_prefix(&windows_path("D:", &["a"])), None);
    assert!(path(&["x", "y"]).stays_inside());
    assert!(!FsPath { parts: vec![PathPart::ParentDir, name("x")] }.stays_inside());
    assert!(p.same(&windows_path("C:", &["a", "b"])));
    assert!(!p.same(&windows_path("C:", &["a"])));
}

#[test]
fn vdf_reads_back_a_written_value() {
    let line = "\"path\"\t\"D:\\\\Steam\\\\Library\"";
    assert_eq!(line, r#""path"	"D:\\Steam\\Library""#);
    assert_eq!(vdf_value(line, "path").as_deref(), Some(r"D:\Steam\Library"));
}

#[test]
fn depot_build_reads_back() {
    assert_eq!(depot_build_id("20512345").as_deref(), Some("20512345"));
}

#[test]
fn prefixes_compare_by_parsed_form() {
    let unc = |server: &str, share: &str| FsPath {
        parts: vec![
            PathPart::Prefix(WinPrefix::UNC(server.to_string(), share.to_string())),
            PathPart::RootDir,
            name("Steam"),
        ],
    };
    assert!(unc("srv", "games").same(&unc("srv", "games")));
    assert!(!unc("srv", "games").same(&unc("srv", "Games")));
    let disk = FsPath { parts: vec![PathPart::Prefix(WinPrefix::Disk(b'C')), PathPart::RootDir] };
    let verbatim = FsPath { parts: vec![PathPart::Prefix(WinPrefix::VerbatimDisk(b'C')), PathPart::RootDir] };
    assert!(!disk.same(&verbatim));
    let steam = windows_path("C", &["Steam"]);
    assert_eq!(
        steam_libraries(&steam, &vec![windows_path("C", &["Steam"]), unc("srv", "games"), unc("srv", "games")]),
        vec![windows_path("C", &["Steam"]), unc("srv", "games")]
    );
}

#[test]
fn join_on_verbatim_paths() {
    let verbatim = |names: &[&str]| {
        let mut parts = vec![PathPart::Prefix(WinPrefix::VerbatimDisk(b'C')), PathPart::RootDir];
        parts.extend(names.iter().map(|s| name(s)));
        FsPath { parts }
    };
    let base = verbatim(&["Games", "Apex"]);
    let rel = FsPath { parts: vec![PathPart::CurDir, name("a"), PathPart::ParentDir, name("b")] };
    assert_eq!(base.join(&rel), verbatim(&["Games", "Apex", "b"]));
    let up = FsPath { parts: vec![PathPart::ParentDir, PathPart::ParentDir, PathPart::ParentDir, name("x")] };
    assert_eq!(base.join(&up), verbatim(&["x"]));
    let rooted = FsPath { parts: vec![PathPart::RootDir, name("y")] };
    assert_eq!(base.join(&rooted), verbatim(&["y"]));
    assert_eq!(base.join(&path(&["audio", "ship"])), verbatim(&["Games", "Apex", "audio", "ship"]));
    assert_eq!(base.join(&FsPath { parts: vec![] }), base);
    let plain = windows_path("C", &["Games"]);
    let dot_a = FsPath { parts: vec![PathPart::CurDir, name("a")] };
    assert_eq!(plain.join(&dot_a), windows_path("C", &["Games", "a"]));
    assert_eq!(FsPath { parts: vec![] }.join(&dot_a), dot_a);
    let drive = FsPath { parts: vec![PathPart::Prefix(WinPrefix::Disk(b'C'))] };
    assert_eq!(
        drive.join(&dot_a),
        FsPath { parts: vec![PathPart::Prefix(WinPrefix::Disk(b'C')), PathPart::CurDir, name("a")] }
    );
    assert_eq!(
        plain.join(&FsPath { parts: vec![PathPart::ParentDir, name("b")] }),
        FsPath {
            parts: vec![
                PathPart::Prefix(WinPrefix::Disk(b'C')),
                PathPart::RootDir,
                name("Games"),
                PathPart::ParentDir,
                name("b"),
            ],
        }
    );
}

#[test]
fn game_search_takes_first_library_with_the_game() {
    let libraries = vec![path(&["L1"]), path(&["L2"]), path(&["L3"])];
    let (mut search, step) = GameSearch::start(libraries);
    assert_eq!(step, GameStep::ReadManifest(path(&["L1", "steamapps", "appmanifest_1172470.acf"])));
    let step = search.on_manifest(None);
    assert_eq!(step, GameStep::ReadManifest(path(&["L2", "steamapps", "appmanifest_1172470.acf"])));
    let step = search.on_manifest(Some("\"AppState\"\n{\n\t\"installdir\"\t\t\"Apex Legends\"\n}\n"));
    assert_eq!(step, GameStep::ParseInstallDir("Apex Legends".to_string()));
    let step = search.on_install_dir(&path(&["Apex Legends"]));
    assert_eq!(step, GameStep::CheckDirectory(path(&["L2", "steamapps", "common", "Apex Legends"])));
    let step = search.on_checked(false);
    assert_eq!(step, GameStep::ReadManifest(path(&["L3", "steamapps", "appmanifest_1172470.acf"])));
    let step = search.on_manifest(Some("\"installdir\" \"Apex\""));
    assert_eq!(step, GameStep::ParseInstallDir("Apex".to_string()));
    let step = search.on_install_dir(&path(&["Apex"]));
    assert_eq!(step, GameStep::CheckDirectory(path(&["L3", "steamapps", "common", "Apex"])));
    assert_eq!(search.on_checked(true), GameStep::Found(path(&["L3", "steamapps", "common", "Apex"])));
}

#[test]
fn game_search_without_the_game_finds_nothing() {
    let (mut search, step) = GameSearch::start(vec![path(&["L1"])]);
    assert_eq!(step, GameStep::ReadManifest(path(&["L1", "steamapps", "appmanifest_1172470.acf"])));
    assert_eq!(search.on_manifest(Some("\"name\" \"Apex Legends\"")), GameStep::NotFound);
    let (_, step) = GameSearch::start(vec![]);
    assert_eq!(step, GameStep::NotFound);
}
