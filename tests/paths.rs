use anime_launcher_sdk::common::{base_install_dir, cache_folder, data_folder, FolderVars};
use anime_launcher_sdk::genshin::{self, GameEdition, Launcher, LauncherBehavior, LauncherStyle};
use anime_launcher_sdk::json::parse_json;
use anime_launcher_sdk::paths::join_path;
use anime_launcher_sdk::steam::LaunchedFrom;
use anime_launcher_sdk::{consts, honkai, star_rail};

fn vars(launcher: Option<&str>, xdg: Option<&str>, home: Option<&str>) -> FolderVars {
    FolderVars {
        launcher_folder: launcher.map(String::from),
        cache_folder: None,
        xdg_data_home: xdg.map(String::from),
        xdg_cache_home: None,
        home: home.map(String::from),
    }
}

#[test]
fn joins_paths() {
    assert_eq!(join_path("/a", "b"), "/a/b");
    assert_eq!(join_path("/a/", "b"), "/a/b");
    assert_eq!(join_path("", "b"), "b");
}

#[test]
fn launcher_folder_override_then_xdg_then_home() {
    assert_eq!(genshin::launcher_dir(&vars(Some("/opt/agl"), Some("/x"), Some("/home/u"))), Some("/opt/agl".to_string()));
    assert_eq!(genshin::launcher_dir(&vars(None, Some("/x"), Some("/home/u"))), Some("/x/anime-game-launcher".to_string()));
    assert_eq!(
        honkai::launcher_dir(&vars(None, None, Some("/home/u"))),
        Some("/home/u/.local/share/honkers-launcher".to_string())
    );
    assert_eq!(star_rail::launcher_dir(&vars(None, None, None)), None);
    assert_eq!(data_folder(&vars(None, None, Some("/h")), "n"), Some("/h/.local/share/n".to_string()));
}

#[test]
fn cache_folder_override_then_xdg_then_home() {
    let mut v = vars(None, None, Some("/home/u"));
    assert_eq!(genshin::cache_dir(&v), Some("/home/u/.cache/anime-game-launcher".to_string()));
    v.xdg_cache_home = Some("/xc".into());
    assert_eq!(honkai::cache_dir(&v), Some("/xc/honkers-launcher".to_string()));
    v.cache_folder = Some("/cache".into());
    assert_eq!(star_rail::cache_dir(&v), Some("/cache".to_string()));
    assert_eq!(cache_folder(&vars(None, None, None), "n"), None);
}

#[test]
fn config_files_sit_in_launcher_folders() {
    let v = vars(None, None, Some("/home/u"));
    assert_eq!(genshin::config_file(&v), Some("/home/u/.local/share/anime-game-launcher/config.json".to_string()));
    assert_eq!(honkai::config_file(&v), Some("/home/u/.local/share/honkers-launcher/config.json".to_string()));
    assert_eq!(star_rail::config_file(&v), Some("/home/u/.local/share/honkers-railway-launcher/config.json".to_string()));
    assert_eq!(star_rail::config_file(&vars(None, None, None)), None);
    assert_eq!(consts::config_file(&Some("/d/agl".to_string())), Some("/d/agl/config.json".to_string()));
    assert_eq!(consts::config_file(&None), None);
    assert_eq!(consts::launcher_dir(&Some("/d".to_string()), &None), Some("/d/anime-game-launcher".to_string()));
    assert_eq!(consts::launcher_dir(&Some("/d".to_string()), &Some("-beta".to_string())), Some("/d/anime-game-launcher-beta".to_string()));
}

#[test]
fn install_dir_under_steam_uses_the_prefix_drive() {
    let drive = Some("/steam/compatdata/1/pfx/drive_c".to_string());
    assert_eq!(base_install_dir("/l".into(), LaunchedFrom::Independent, &drive), "/l");
    assert_eq!(base_install_dir("/l".into(), LaunchedFrom::Steam, &drive), "/steam/compatdata/1/pfx/drive_c");
    assert_eq!(base_install_dir("/l".into(), LaunchedFrom::Steam, &None), "/l");
    let v = vars(Some("/l"), None, None);
    assert_eq!(genshin::base_game_install_dir(&v, LaunchedFrom::Steam, &drive), drive);
    assert_eq!(star_rail::base_game_install_dir(&v, LaunchedFrom::Independent, &drive), Some("/l".to_string()));
    assert_eq!(honkai::base_game_install_dir(&v, LaunchedFrom::Steam, &None, &Some("/steam/hi3".to_string())), Some("/steam/hi3".to_string()));
    assert_eq!(honkai::base_game_install_dir(&v, LaunchedFrom::Steam, &None, &None), Some("/l".to_string()));
    assert_eq!(genshin::base_game_install_dir(&vars(None, None, None), LaunchedFrom::Steam, &drive), None);
}

#[test]
fn default_game_paths() {
    let p = genshin::Paths::defaults("/games", LaunchedFrom::Independent);
    assert_eq!(p.global, "/games/Genshin Impact");
    assert_eq!(p.china, "/games/YuanShen");
    assert_eq!(genshin::Paths::defaults("/games", LaunchedFrom::Steam).global, "/games/Genshin Impact/Genshin Impact game");
    assert_eq!(p.for_edition(GameEdition::China), "/games/YuanShen");
    assert_eq!(genshin::concat_gen_shin(), "Genshin Impact");
    assert_eq!(genshin::concat_gen_shin_game(), "Genshin Impact game");
    assert_eq!(genshin::get_global_launchdir("/g", LaunchedFrom::Independent), "/g/Genshin Impact");
    let s = star_rail::Paths::defaults("/games", LaunchedFrom::Steam);
    assert_eq!(s.global, "/games/StarRail/Games");
    assert_eq!(s.china, "/games/HSR China");
    assert_eq!(star_rail::Paths::defaults("/games", LaunchedFrom::Independent).global, "/games/HSR");
    assert_eq!(s.for_edition(GameEdition::Global), "/games/StarRail/Games");
}

#[test]
fn paths_from_config_keep_defaults_for_bad_fields() {
    let j = parse_json(r#"{"global": "/mnt/gi", "china": 3}"#).unwrap();
    let p = star_rail::Paths::from_json(&j, star_rail::Paths::defaults("/g", LaunchedFrom::Independent));
    assert_eq!(p.global, "/mnt/gi");
    assert_eq!(p.china, "/g/HSR China");
}

#[test]
fn game_settings_from_config() {
    let default = genshin::Game::defaults(genshin::Paths::defaults("/g", LaunchedFrom::Independent));
    assert_eq!(default.voices, vec!["en-us".to_string()]);
    let j = parse_json(r#"{
        "path": {"global": "/mnt/gi"},
        "voices": ["ja-jp", 4, "en-us"],
        "environment": {"DXVK_HUD": "fps", "N": 1},
        "command": null,
        "telemetry_ignored": true
    }"#).unwrap();
    let mut with_command = default.clone();
    with_command.command = Some("gamemoderun %command%".into());
    let g = genshin::Game::from_json(&j, with_command);
    assert_eq!(g.path.global, "/mnt/gi");
    assert_eq!(g.path.china, "/g/YuanShen");
    assert_eq!(g.voices, vec!["ja-jp".to_string(), "en-us".to_string()]);
    assert_eq!(g.environment, vec![("DXVK_HUD".to_string(), "fps".to_string())]);
    assert_eq!(g.command, None);
    assert!(g.telemetry_ignored);
    let kept = genshin::Game::from_json(&parse_json(r#"{"voices": "ja", "command": 1}"#).unwrap(), default.clone());
    assert_eq!(kept, default);
}

#[test]
fn launcher_defaults() {
    assert_eq!(LauncherStyle::default(), LauncherStyle::Modern);
    assert_eq!(LauncherBehavior::default(), LauncherBehavior::Hide);
    assert_eq!(LauncherStyle::from_json(&parse_json("\"Classic\"").unwrap()), LauncherStyle::Classic);
    assert_eq!(LauncherStyle::from_json(&parse_json("\"Retro\"").unwrap()), LauncherStyle::Modern);
    assert_eq!(LauncherBehavior::from_json(&parse_json("\"Close\"").unwrap(), LauncherBehavior::Hide), LauncherBehavior::Close);
    assert_eq!(LauncherBehavior::from_json(&parse_json("2").unwrap(), LauncherBehavior::Nothing), LauncherBehavior::Nothing);
}

#[test]
fn launcher_settings_from_config() {
    let default = Launcher::defaults(GameEdition::Global, Some("/tmp/agl".into()), true);
    assert_eq!(default.language, "en-us");
    let j = parse_json(r#"{"language": "ja-jp", "edition": "China", "style": 3, "temp": null, "behavior": "Close"}"#).unwrap();
    let mut classic = default.clone();
    classic.style = LauncherStyle::Classic;
    let l = Launcher::from_json(&j, classic.clone());
    assert_eq!(l.language, "ja-jp");
    assert_eq!(l.edition, GameEdition::China);
    assert_eq!(l.style, LauncherStyle::Modern);
    assert_eq!(l.temp, None);
    assert!(!l.permissive);
    assert_eq!(l.behavior, LauncherBehavior::Close);
    let kept = Launcher::from_json(&parse_json(r#"{"edition": "Moon", "permissive": true}"#).unwrap(), classic.clone());
    assert_eq!(kept.edition, GameEdition::Global);
    assert_eq!(kept.style, LauncherStyle::Classic);
    assert_eq!(kept.temp.as_deref(), Some("/tmp/agl"));
    assert!(kept.permissive);
}

#[test]
fn absolute_part_replaces_the_base() {
    assert_eq!(join_path("/a", "/etc/b"), "/etc/b");
    assert_eq!(join_path("", "/b"), "/b");
}
