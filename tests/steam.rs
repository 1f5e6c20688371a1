use anime_launcher_sdk::steam::{
    check_env_var_for_val, check_pld, default_window_size_height, default_window_size_width, environment,
    filter_local_roots_by_proton_launcher, get_library_search_roots, get_proton_installs_as_wines,
    get_split_names, is_prefix_update_disabled, launched_from, proton_features, proton_group,
    split_version_file, steam_proton_installed_paths, CandidateDir, DiscoveryError, LaunchedFrom,
    RuntimeEnvironment, Steam, SteamCompat, SteamInstall,
};
use anime_launcher_sdk::components::Bundle;

fn env(launched: bool, deck: bool, os: bool) -> RuntimeEnvironment {
    RuntimeEnvironment { launched_from_steam: launched, steam_deck: deck, steam_os: os }
}

fn candidate(name: &str, version: Option<&str>) -> CandidateDir {
    CandidateDir {
        path: format!("/steam/common/{name}"),
        dir_name: name.to_string(),
        is_dir: true,
        is_symlink: false,
        has_proton: true,
        version_file: version.map(|v| v.to_string()),
    }
}

fn compat() -> SteamCompat {
    SteamCompat {
        compat_data_path: Some("/steam/compatdata/123".into()),
        client_install_path: Some("/steam".into()),
        app_id: None,
    }
}

#[test]
fn environment_from_signals() {
    assert_eq!(environment(&env(false, true, true)), Steam::Independent);
    assert_eq!(environment(&env(true, false, false)), Steam::Desktop);
    assert_eq!(environment(&env(true, true, false)), Steam::Desktop);
    assert_eq!(environment(&env(true, false, true)), Steam::OS);
    assert_eq!(environment(&env(true, true, true)), Steam::Deck);
    assert_eq!(launched_from(&env(true, false, false)), LaunchedFrom::Steam);
    assert_eq!(launched_from(&env(false, false, false)), LaunchedFrom::Independent);
    assert!(is_prefix_update_disabled(&env(true, false, false)));
    assert!(!is_prefix_update_disabled(&env(false, true, true)));
}

#[test]
fn signals_hold_only_for_one() {
    let one = Some("1".to_string());
    let r = RuntimeEnvironment::from_vars(&one, &Some("true".to_string()), &None);
    assert_eq!(r, env(true, false, false));
    assert!(check_env_var_for_val(&one, "1"));
    assert!(!check_env_var_for_val(&Some("10".to_string()), "1"));
    assert!(!check_env_var_for_val(&None, "1"));
}

#[test]
fn deck_window_size() {
    assert_eq!(default_window_size_width(&env(true, true, true), 1200), 1280);
    assert_eq!(default_window_size_height(&env(true, true, true), 700), 800);
    assert_eq!(default_window_size_width(&env(true, false, true), 1200), 1200);
    assert_eq!(default_window_size_height(&env(false, false, false), 700), 700);
}

#[test]
fn search_roots_are_common_folders_then_compat_tools() {
    let steam = SteamInstall { root: "/home/u/.steam/steam".into(), library_folders: vec!["/home/u/.steam/steam/steamapps".into(), "/mnt/games/steamapps/".into()] };
    assert_eq!(
        get_library_search_roots(&steam),
        vec![
            "/home/u/.steam/steam/steamapps/common".to_string(),
            "/mnt/games/steamapps/common".to_string(),
            "/home/u/.steam/steam/compatibilitytools.d".to_string(),
        ]
    );
}

#[test]
fn version_file_needs_two_tokens() {
    assert_eq!(split_version_file("1695148843 proton-8.0-4\n"), Some(("1695148843".to_string(), "proton-8.0-4".to_string())));
    assert_eq!(split_version_file("1 GE Proton 9 \n"), Some(("1".to_string(), "GE Proton 9".to_string())));
    assert_eq!(split_version_file("1695148843\n"), None);
    assert_eq!(split_version_file("1695148843 \n"), None);
    assert_eq!(split_version_file(" proton"), None);
    assert_eq!(split_version_file(""), None);
}

#[test]
fn split_names_take_the_folder_as_title() {
    let c = candidate("Proton 8.0", Some("1695148843 proton-8.0-4\n"));
    assert_eq!(get_split_names(&c), Some(("Proton 8.0".to_string(), "proton-8.0-4".to_string())));
    assert_eq!(get_split_names(&candidate("x", None)), None);
}

#[test]
fn only_real_folders_with_a_launcher_count() {
    let mut link = candidate("Proton Link", Some("1 p"));
    link.is_symlink = true;
    let mut no_launcher = candidate("Empty", Some("1 p"));
    no_launcher.has_proton = false;
    let mut file = candidate("file", Some("1 p"));
    file.is_dir = false;
    let good = candidate("Proton 9.0", Some("1 proton-9.0"));
    assert!(check_pld(&good));
    assert!(!check_pld(&link) && !check_pld(&no_launcher) && !check_pld(&file));
    let found = vec![link, good.clone(), no_launcher, file];
    assert_eq!(filter_local_roots_by_proton_launcher(&found), vec![good.path.clone()]);
    assert_eq!(steam_proton_installed_paths(&env(false, false, false), &None, &found), None);
    let steam = Some(SteamInstall { root: "/steam".into(), library_folders: vec![] });
    assert_eq!(steam_proton_installed_paths(&env(false, false, false), &steam, &found), None);
    assert_eq!(steam_proton_installed_paths(&env(true, false, false), &steam, &found), Some(vec![good.path]));
}

#[test]
fn proton_group_skips_builds_without_a_name() {
    let found = vec![
        candidate("Proton 8.0", Some("1695148843 proton-8.0-4\n")),
        candidate("Proton Broken", Some("1695148843\n")),
        candidate("Proton Unreadable", None),
        candidate("GE-Proton9-1", Some("GE-Proton9-1 GE-Proton9-1")),
    ];
    let g = proton_group(&found, &compat(), "/steam");
    assert_eq!(g.name, "steam-proton");
    assert_eq!(g.title, "Proton Runners via Steam");
    assert!(g.managed);
    assert_eq!(g.versions.len(), 2);
    assert_eq!(g.versions[0].name, "proton-8.0-4");
    assert_eq!(g.versions[0].title, "Proton 8.0");
    assert_eq!(g.versions[0].uri, "/steam/common/Proton 8.0");
    assert!(g.versions[0].managed);
    assert_eq!(g.versions[0].files.as_ref().unwrap().wine, "proton");
    assert_eq!(g.versions[1].name, "GE-Proton9-1");
    assert_eq!(g.versions[1].features, g.features);
}

#[test]
fn proton_features_are_fixed() {
    let f = proton_features(&compat(), "/home/u/.steam/steam");
    assert_eq!(f.bundle, Some(Bundle::Proton));
    assert!(f.compact_launch);
    assert!(f.need_dxvk);
    assert_eq!(f.command.as_deref(), Some("python3 '%build%/proton' waitforexitandrun"));
    assert_eq!(f.prefix_subdir.as_deref(), Some("pfx"));
    assert_eq!(
        f.env,
        vec![
            ("STEAM_COMPAT_DATA_PATH".to_string(), "/steam/compatdata/123".to_string()),
            ("STEAM_COMPAT_CLIENT_INSTALL_PATH".to_string(), "/steam".to_string()),
            ("SteamAppId".to_string(), "0".to_string()),
        ]
    );
    assert_eq!(f.managed_prefix.as_deref(), Some("/steam/compatdata/123"));
    let bare = SteamCompat { compat_data_path: None, client_install_path: None, app_id: Some("1971870".into()) };
    let f = proton_features(&bare, "/home/u/.steam/steam");
    assert_eq!(
        f.env,
        vec![
            ("STEAM_COMPAT_DATA_PATH".to_string(), "%prefix%".to_string()),
            ("STEAM_COMPAT_CLIENT_INSTALL_PATH".to_string(), "/home/u/.steam/steam".to_string()),
            ("SteamAppId".to_string(), "1971870".to_string()),
        ]
    );
    assert_eq!(f.managed_prefix, None);
}

#[test]
fn discovery_fails_only_without_steam_in_steam_mode() {
    let found = vec![candidate("Proton 8.0", Some("1 proton-8"))];
    let under_steam = env(true, false, false);
    assert_eq!(get_proton_installs_as_wines(&under_steam, &None, &found, &compat()), Err(DiscoveryError));
    let outside = get_proton_installs_as_wines(&env(false, false, false), &None, &found, &compat()).unwrap();
    assert_eq!(outside.len(), 1);
    assert_eq!(outside[0].name, "steam-proton");
    assert!(outside[0].managed);
    assert!(outside[0].versions.is_empty());
    assert_eq!(outside[0].features.as_ref().unwrap().env[1], ("STEAM_COMPAT_CLIENT_INSTALL_PATH".to_string(), "/steam".to_string()));
    let steam = Some(SteamInstall { root: "/steam".into(), library_folders: vec![] });
    let groups = get_proton_installs_as_wines(&under_steam, &steam, &found, &compat()).unwrap();
    assert_eq!(groups.len(), 1);
    assert_eq!(groups[0].versions.len(), 1);
    let none = get_proton_installs_as_wines(&env(false, false, false), &steam, &vec![], &compat()).unwrap();
    assert_eq!(none.len(), 1);
    assert!(none[0].versions.is_empty());
}

#[test]
fn version_name_is_trimmed_of_unicode_white_space() {
    let text = "123 \u{3000}Proton 9.0\u{a0}\u{2009}\n";
    assert_eq!(split_version_file(text), Some(("123".to_string(), "Proton 9.0".to_string())));
    assert_eq!(split_version_file(text).unwrap().1, text.split_once(' ').unwrap().1.trim());
    assert_eq!(split_version_file("\t7 a"), Some(("7".to_string(), "a".to_string())));
}
