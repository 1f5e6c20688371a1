use anime_launcher_sdk::catalog::{
    get_local_proton_versions, runner_groups, group_entries, group_versions, kind_name, load_groups, ComponentKind,
    ComponentRegistry, ComponentsLoader, Document, Field, StructuralConfigError,
};
use anime_launcher_sdk::components::{get_downloaded, resolve_features, Bundle, Features, Group, RunnerPlan, Version, WineArch, WineBoot};
use anime_launcher_sdk::json::{parse_json, Json};
use anime_launcher_sdk::steam::{DiscoveryError, RuntimeEnvironment};

const INDEX: &str = r#"{
    "wine": [
        {"name": "wine-ge-proton", "title": "Wine-GE-Proton", "features": {"need_dxvk": false, "env": {"WINEESYNC": "1", "DEPTH": 3}}},
        {"name": "lutris", "title": "Lutris"}
    ],
    "dxvk": [
        {"name": "vanilla", "title": "Vanilla"}
    ]
}"#;

const GE: &str = r#"[
    {"name": "lutris-GE-Proton8-26-x86_64", "title": "Wine-GE-Proton 8-26", "uri": "https://example.org/ge-8-26.tar.xz",
     "files": {"wine": "bin/wine", "wine64": "bin/wine64", "wineserver": "bin/wineserver", "wineboot": "bin/wineboot", "winecfg": "bin/winecfg"}},
    {"name": "lutris-GE-Proton8-25-x86_64", "title": "Wine-GE-Proton 8-25", "uri": "https://example.org/ge-8-25.tar.xz",
     "files": {"wine": "bin/wine", "wine64": null, "wineboot": "lib/wine/x86_64-windows/wineboot.exe"},
     "features": {"bundle": "Proton", "compact_launch": true}}
]"#;

const LUTRIS: &str = r#"[
    {"name": "lutris-7-2", "title": "Lutris 7.2", "uri": "https://example.org/lutris-7-2.tar.xz", "files": {"wine": "bin/wine"}},
    {"name": "lutris-7-1", "title": "Lutris 7.1", "uri": "https://example.org/lutris-7-1.tar.xz", "files": {"wine": "bin/wine"}},
    {"name": "lutris-7-0", "title": "Lutris 7.0", "uri": "https://example.org/lutris-7-0.tar.xz", "files": {"wine": "bin/wine"}}
]"#;

fn json(text: &str) -> Json {
    parse_json(text).expect("test document is JSON")
}

fn wine_catalog() -> Vec<Group> {
    load_groups(&json(INDEX), &vec![json(GE), json(LUTRIS)], ComponentKind::Wine).unwrap()
}

fn error(document: Document, entry: Option<usize>, field: Field) -> StructuralConfigError {
    StructuralConfigError { document, entry, field }
}

#[test]
fn load_counts_every_version() {
    let groups = wine_catalog();
    assert_eq!(groups.len(), 2);
    assert_eq!(groups.iter().map(|g| g.versions.len()).sum::<usize>(), 5);
    assert_eq!(groups[0].name, "wine-ge-proton");
    assert_eq!(groups[1].versions[2].name, "lutris-7-0");
    assert!(!groups[0].managed);
    let features = groups[0].features.as_ref().unwrap();
    assert!(!features.need_dxvk);
    assert_eq!(features.env, vec![(String::from("WINEESYNC"), String::from("1"))]);
    assert_eq!(groups[1].features, None);
    let files = groups[0].versions[1].files.as_ref().unwrap();
    assert_eq!(files.wine64, None);
    assert_eq!(files.wineserver, None);
    assert_eq!(files.wineboot.as_deref(), Some("lib/wine/x86_64-windows/wineboot.exe"));
}

#[test]
fn dxvk_versions_need_no_files() {
    let doc = json(r#"[{"name": "dxvk-2.3", "title": "DXVK 2.3", "uri": "https://example.org/dxvk-2.3.tar.gz"}]"#);
    let groups = load_groups(&json(INDEX), &vec![doc], ComponentKind::Dxvk).unwrap();
    assert_eq!(groups.len(), 1);
    assert_eq!(groups[0].versions[0].files, None);
    assert_eq!(kind_name(ComponentKind::Dxvk), "dxvk");
}

#[test]
fn index_problems_are_reported_with_their_place() {
    assert_eq!(
        group_entries(&json(r#"{"dxvk": []}"#), ComponentKind::Wine),
        Err(error(Document::Index, None, Field::List))
    );
    assert_eq!(
        group_entries(&json(r#"{"wine": {"name": "x"}}"#), ComponentKind::Wine),
        Err(error(Document::Index, None, Field::List))
    );
    assert_eq!(
        group_entries(&json(r#"{"wine": [{"name": "a", "title": "A"}, {"title": "B"}]}"#), ComponentKind::Wine),
        Err(error(Document::Index, Some(1), Field::Name))
    );
    assert_eq!(
        group_entries(&json(r#"{"wine": [{"name": "a", "title": 7}]}"#), ComponentKind::Wine),
        Err(error(Document::Index, Some(0), Field::Title))
    );
}

#[test]
fn version_problems_are_reported_with_their_place() {
    let v = |text: &str| group_versions(&json(text), 3, ComponentKind::Wine);
    assert_eq!(v(r#"{"name": "x"}"#), Err(error(Document::Versions(3), None, Field::List)));
    assert_eq!(v(r#"[{"title": "t", "uri": "u", "files": {"wine": "w"}}]"#), Err(error(Document::Versions(3), Some(0), Field::Name)));
    assert_eq!(v(r#"[{"name": "n", "uri": "u", "files": {"wine": "w"}}]"#), Err(error(Document::Versions(3), Some(0), Field::Title)));
    assert_eq!(v(r#"[{"name": "n", "title": "t", "files": {"wine": "w"}}]"#), Err(error(Document::Versions(3), Some(0), Field::Uri)));
    assert_eq!(v(r#"[{"name": "n", "title": "t", "uri": "u"}]"#), Err(error(Document::Versions(3), Some(0), Field::Files)));
    assert_eq!(
        v(r#"[{"name": "n", "title": "t", "uri": "u", "files": {"wine": "w", "wine64": 64}}]"#),
        Err(error(Document::Versions(3), Some(0), Field::Files))
    );
}

#[test]
fn missing_version_document_fails_the_load() {
    let r = load_groups(&json(INDEX), &vec![json(GE)], ComponentKind::Wine);
    assert_eq!(r, Err(error(Document::Versions(1), None, Field::List)));
}

#[test]
fn first_problem_in_document_order_wins() {
    let bad_ge = r#"[{"name": "a", "title": "A", "uri": "u", "files": {"wine": "w"}}, {"name": "b", "uri": "u"}]"#;
    let bad_lutris = r#"[{"title": "x"}]"#;
    let r = load_groups(&json(INDEX), &vec![json(bad_ge), json(bad_lutris)], ComponentKind::Wine);
    assert_eq!(r, Err(error(Document::Versions(0), Some(1), Field::Title)));
}

#[test]
fn text_that_is_not_json_is_refused() {
    assert!(parse_json("{\"wine\": [").is_none());
    assert!(parse_json("wine").is_none());
    match parse_json(r#"{"a": [1, true, null, "x"]}"#) {
        Some(Json::Object(entries)) => {
            assert_eq!(entries.len(), 1);
            assert_eq!(entries[0].0, "a");
            match &entries[0].1 {
                Json::Array(items) => {
                    assert!(matches!(&items[0], Json::Number(n) if n == "1"));
                    assert!(matches!(items[1], Json::Bool(true)));
                    assert!(matches!(items[2], Json::Null));
                    assert!(matches!(&items[3], Json::Str(s) if s == "x"));
                }
                _ => panic!("expected a list"),
            }
        }
        _ => panic!("expected an object"),
    }
}

#[test]
fn registry_serves_the_first_load_until_invalidated() {
    let mut registry = ComponentRegistry::new();
    let first = registry.load("/catalog", ComponentKind::Wine, &json(INDEX), &vec![json(GE), json(LUTRIS)]).unwrap();
    let edited = json(r#"{"wine": [{"name": "only", "title": "Only"}]}"#);
    let again = registry.load("/catalog", ComponentKind::Wine, &edited, &vec![json("[]")]).unwrap();
    assert_eq!(first, again);
    assert_eq!(registry.lookup("/catalog", ComponentKind::Wine), Some(first.clone()));
    assert_eq!(registry.lookup("/catalog", ComponentKind::Dxvk), None);
    assert_eq!(registry.lookup("/other", ComponentKind::Wine), None);
    registry.invalidate("/catalog");
    assert_eq!(registry.lookup("/catalog", ComponentKind::Wine), None);
    let reloaded = registry.load("/catalog", ComponentKind::Wine, &edited, &vec![json("[]")]).unwrap();
    assert_eq!(reloaded.len(), 1);
    assert_eq!(reloaded[0].name, "only");
}

#[test]
fn failed_load_is_not_cached() {
    let mut registry = ComponentRegistry::new();
    let r = registry.load("/catalog", ComponentKind::Wine, &json("{}"), &vec![]);
    assert_eq!(r, Err(error(Document::Index, None, Field::List)));
    assert_eq!(registry.lookup("/catalog", ComponentKind::Wine), None);
}

#[test]
fn loader_paths() {
    let loader = ComponentsLoader::new("/home/u/.local/share/anime-game-launcher/components");
    assert_eq!(loader.folder(), "/home/u/.local/share/anime-game-launcher/components");
    assert_eq!(loader.index_file(), "/home/u/.local/share/anime-game-launcher/components/components.json");
    assert_eq!(
        loader.versions_file(ComponentKind::Wine, "wine-ge-proton"),
        "/home/u/.local/share/anime-game-launcher/components/wine/wine-ge-proton.json"
    );
    assert_eq!(ComponentsLoader::new("/c/").index_file(), "/c/components.json");
}

#[test]
fn loader_prefers_steam_runners_under_steam() {
    let loader = ComponentsLoader::new("/catalog");
    let mut registry = ComponentRegistry::new();
    let steam = RuntimeEnvironment { launched_from_steam: true, steam_deck: false, steam_os: false };
    let desktop = RuntimeEnvironment { launched_from_steam: false, steam_deck: false, steam_os: false };
    let proton = vec![Group { name: "steam-proton".into(), title: "Proton".into(), features: None, versions: vec![], managed: true }];
    let docs = vec![json(GE), json(LUTRIS)];
    let r = loader.get_wine_versions(&mut registry, &steam, Ok(proton.clone()), &json(INDEX), &docs).unwrap();
    assert_eq!(r, proton);
    let r = loader.get_wine_versions(&mut registry, &steam, Err(DiscoveryError), &json(INDEX), &docs).unwrap();
    assert_eq!(r.len(), 2);
    let r = loader.get_wine_versions(&mut registry, &desktop, Ok(proton.clone()), &json(INDEX), &docs).unwrap();
    assert_eq!(r.len(), 2);
    let dxvk = loader.get_dxvk_versions(&mut registry, &json(INDEX), &vec![json("[]")]).unwrap();
    assert_eq!(dxvk.len(), 1);
    assert!(dxvk[0].versions.is_empty());
}

#[test]
fn runner_groups_prefer_steam_only_under_steam() {
    let proton = vec![Group { name: "steam-proton".into(), title: "Proton".into(), features: None, versions: vec![], managed: true }];
    let steam = RuntimeEnvironment { launched_from_steam: true, steam_deck: false, steam_os: false };
    let desktop = RuntimeEnvironment { launched_from_steam: false, steam_deck: false, steam_os: false };
    let catalog: Result<Vec<Group>, String> = Ok(wine_catalog());
    assert_eq!(runner_groups(&steam, Ok(proton.clone()), catalog.clone()), Ok(proton.clone()));
    assert_eq!(runner_groups(&desktop, Ok(proton.clone()), catalog.clone()), catalog.clone());
    assert_eq!(runner_groups(&steam, Err(DiscoveryError), Err::<Vec<Group>, String>("no catalog".into())), Err("no catalog".to_string()));
}

#[test]
fn local_proton_versions_fall_back_to_catalog() {
    let proton = vec![Group { name: "steam-proton".into(), title: "Proton".into(), features: None, versions: vec![], managed: true }];
    assert_eq!(get_local_proton_versions(Ok(proton.clone()), Ok(wine_catalog())), Ok(proton));
    assert_eq!(get_local_proton_versions(Err(DiscoveryError), Ok(wine_catalog())), Ok(wine_catalog()));
}

#[test]
fn version_features_replace_group_features_whole() {
    let mut group = Features::defaults();
    group.compact_launch = true;
    group.command = Some(String::from("%build%/wine %game%"));
    let mut version = Features::defaults();
    version.need_dxvk = false;
    let r = resolve_features(&Some(version.clone()), &Some(group.clone()));
    assert_eq!(r, version);
    assert!(!r.compact_launch);
    assert_eq!(r.command, None);
    assert_eq!(resolve_features(&None, &Some(group.clone())), group);
    let d = resolve_features(&None, &None);
    assert!(d.need_dxvk);
    assert!(d.env.is_empty());
    assert_eq!(d.bundle, None);
    assert_eq!(d.command, None);
    assert_eq!(d, Features::default());
}

#[test]
fn features_fall_back_field_by_field_in_json() {
    let f = Features::from_json(&json(r#"{"bundle": "Proton", "need_dxvk": "no", "command": 5, "prefix_subdir": "pfx", "env": {"A": "1", "B": false, "C": "3"}}"#));
    assert_eq!(f.bundle, Some(Bundle::Proton));
    assert!(f.need_dxvk);
    assert!(!f.compact_launch);
    assert_eq!(f.command, None);
    assert_eq!(f.prefix_subdir.as_deref(), Some("pfx"));
    assert_eq!(f.env, vec![("A".to_string(), "1".to_string()), ("C".to_string(), "3".to_string())]);
    assert_eq!(Features::from_json(&json(r#"{"bundle": "Wine"}"#)).bundle, None);
    assert_eq!(Features::from_json(&json("[]")), Features::defaults());
}

#[test]
fn downloaded_keeps_only_present_folders_and_managed_groups() {
    let mut groups = wine_catalog();
    groups.push(Group {
        name: "steam-proton".into(),
        title: "Proton Runners via Steam".into(),
        features: None,
        versions: vec![Version { name: "Proton 8.0".into(), title: "proton-8".into(), uri: "/steam/proton-8".into(), files: None, features: None, managed: true }],
        managed: true,
    });
    let folders = vec!["lutris-7-1".to_string(), "unrelated".to_string(), "lutris-7-0".to_string()];
    let r = get_downloaded(&groups, &folders);
    assert_eq!(r.len(), 2);
    assert_eq!(r[0].name, "lutris");
    assert_eq!(r[0].versions.iter().map(|v| v.name.as_str()).collect::<Vec<_>>(), vec!["lutris-7-1", "lutris-7-0"]);
    assert_eq!(r[1], groups[2]);
    assert!(get_downloaded(&groups[..2].to_vec(), &vec![]).is_empty());
}

#[test]
fn find_by_group_or_version_name() {
    let groups = wine_catalog();
    assert_eq!(Group::find_in(&groups, "lutris").unwrap().name, "lutris");
    assert_eq!(Group::find_in(&groups, "lutris-GE-Proton8-25-x86_64").unwrap().name, "wine-ge-proton");
    assert_eq!(Group::find_in(&groups, "nothing"), None);
    let v = Version::find_in(&groups, "lutris-7-1").unwrap();
    assert_eq!(v.title, "Lutris 7.1");
    assert_eq!(Version::find_in(&groups, "lutris"), None);
    assert_eq!(v.find_group(&groups).unwrap().name, "lutris");
    assert_eq!(v.features(&groups), None);
    let ge = &groups[0].versions[0];
    assert!(!ge.features(&groups).unwrap().need_dxvk);
    assert!(ge.features_in(&groups[0]).is_some());
    assert_eq!(ge.version_features(), None);
    assert_eq!(Version::latest(&groups).unwrap().name, "lutris-GE-Proton8-26-x86_64");
    assert_eq!(Version::latest(&vec![]), None);
}

#[test]
fn downloaded_and_runner_dirs() {
    let groups = wine_catalog();
    let v = &groups[1].versions[0];
    assert!(v.is_downloaded_in(&vec!["lutris-7-2".to_string()]));
    assert!(!v.is_downloaded_in(&vec!["lutris-7-1".to_string()]));
    assert_eq!(v.get_runner_dir("/runners"), "/runners/lutris-7-2");
    let managed = Version { name: "Proton 8.0".into(), title: "proton-8".into(), uri: "/steam/common/Proton 8.0".into(), files: None, features: None, managed: true };
    assert_eq!(managed.get_runner_dir("/runners"), "/steam/common/Proton 8.0");
}

#[test]
fn launch_plan_for_wine_and_proton_builds() {
    let groups = wine_catalog();
    let ge = &groups[0].versions[0];
    assert_eq!(
        ge.to_wine(&groups, &Some("/runners/ge".to_string())),
        Some(RunnerPlan::Wine {
            binary: "/runners/ge/bin/wine64".into(),
            arch: WineArch::Win64,
            boot: Some(WineBoot::Unix("/runners/ge/bin/wineboot".into())),
            server: Some("/runners/ge/bin/wineserver".into()),
        })
    );
    let proton = &groups[0].versions[1];
    assert_eq!(
        proton.to_wine(&groups, &Some("/runners/p".to_string())),
        Some(RunnerPlan::Proton { folder: "/runners/p".into(), prefix: None })
    );
    let mut plain = proton.clone();
    plain.features = None;
    assert_eq!(
        plain.to_wine(&groups, &Some("/r".to_string())),
        Some(RunnerPlan::Wine {
            binary: "/r/bin/wine".into(),
            arch: WineArch::Win32,
            boot: Some(WineBoot::Windows("/r/lib/wine/x86_64-windows/wineboot.exe".into())),
            server: None,
        })
    );
    let mut bare = plain.clone();
    bare.files = None;
    assert_eq!(bare.to_wine(&groups, &None), None);
}

#[test]
fn storing_again_replaces_what_was_held() {
    let mut registry = ComponentRegistry::new();
    let first = wine_catalog();
    registry.store("/catalog", ComponentKind::Wine, first.clone());
    registry.store("/catalog", ComponentKind::Wine, first[..1].to_vec());
    registry.store("/catalog", ComponentKind::Dxvk, vec![]);
    assert_eq!(registry.lookup("/catalog", ComponentKind::Wine), Some(first[..1].to_vec()));
    assert_eq!(registry.lookup("/catalog", ComponentKind::Dxvk), Some(vec![]));
    registry.invalidate("/catalog");
    assert_eq!(registry.lookup("/catalog", ComponentKind::Dxvk), None);
}

#[test]
fn deep_nesting_follows_serde_json_limit() {
    let ok = format!("{}{}", "[".repeat(127), "]".repeat(127));
    assert!(parse_json(&ok).is_some());
    let deep = format!("{}{}", "[".repeat(200), "]".repeat(200));
    assert!(parse_json(&deep).is_none());
}

#[test]
fn repeated_env_entry_replaces_the_earlier_value() {
    let s = |t: &str| Json::Str(t.to_string());
    let env = Json::Object(vec![("A".into(), s("1")), ("B".into(), s("2")), ("A".into(), s("3"))]);
    let f = Features::from_json(&Json::Object(vec![("env".into(), env)]));
    assert_eq!(f.env, vec![("A".to_string(), "3".to_string()), ("B".to_string(), "2".to_string())]);
}
