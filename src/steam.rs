//! The Steam environment, and the Proton builds that Steam has installed.

use vstd::prelude::*;
use crate::components::{
    Bundle, Features, FeaturesView, Files, FilesView, Group, GroupView, Version, VersionView,
    groups_view, pairs_view, text_view, versions_view,
};
use crate::paths::{join_path, joined};

verus! {

/// Whether the launcher runs under Steam.
#[derive(Debug, Clone, Copy, PartialEq, Eq, Structural)]
pub enum LaunchedFrom {
    Steam,
    Independent,
}

/// The Steam environment the launcher runs in.
#[derive(Debug, Clone, Copy, PartialEq, Eq, Structural)]
pub enum Steam {
    Desktop,
    Deck,
    OS,
    /// Not launched through Steam.
    Independent,
}

/// The three signals that describe the Steam environment, read once from the
/// process environment (`SteamEnv`, `SteamDeck`, `SteamOS`).
#[derive(Debug, Clone, Copy, PartialEq, Eq, Structural)]
pub struct RuntimeEnvironment {
    pub launched_from_steam: bool,
    pub steam_deck: bool,
    pub steam_os: bool,
}

/// Whether an environment variable's value is exactly `expected`.
pub fn check_env_var_for_val(value: &Option<String>, expected: &str) -> (r: bool)
    ensures
        r == (value is Some && value.unwrap()@ == expected@),
{
    match value {
        Some(v) => crate::json::text_is(v, expected),
        None => false,
    }
}

impl RuntimeEnvironment {
    /// The environment described by the values of `SteamEnv`, `SteamDeck` and
    /// `SteamOS`: each signal holds when its variable is `1`.
    pub fn from_vars(steam_env: &Option<String>, steam_deck: &Option<String>, steam_os: &Option<String>) -> (r: RuntimeEnvironment)
        ensures
            r.launched_from_steam == (steam_env is Some && steam_env.unwrap()@ == "1"@),
            r.steam_deck == (steam_deck is Some && steam_deck.unwrap()@ == "1"@),
            r.steam_os == (steam_os is Some && steam_os.unwrap()@ == "1"@),
    {
        RuntimeEnvironment {
            launched_from_steam: check_env_var_for_val(steam_env, "1"),
            steam_deck: check_env_var_for_val(steam_deck, "1"),
            steam_os: check_env_var_for_val(steam_os, "1"),
        }
    }
}

pub open spec fn environment_of(env: RuntimeEnvironment) -> Steam {
    if !env.launched_from_steam {
        Steam::Independent
    } else if !env.steam_os {
        Steam::Desktop
    } else if env.steam_deck {
        Steam::Deck
    } else {
        Steam::OS
    }
}

/// The Steam environment: a Deck or another SteamOS machine when launched from
/// Steam on SteamOS, the desktop client when launched from Steam elsewhere.
pub fn environment(env: &RuntimeEnvironment) -> (r: Steam)
    ensures
        r == environment_of(*env),
{
    if !env.launched_from_steam {
        Steam::Independent
    } else if !env.steam_os {
        Steam::Desktop
    } else if env.steam_deck {
        Steam::Deck
    } else {
        Steam::OS
    }
}

pub fn launched_from(env: &RuntimeEnvironment) -> (r: LaunchedFrom)
    ensures
        r == (if env.launched_from_steam { LaunchedFrom::Steam } else { LaunchedFrom::Independent }),
{
    if environment(env) == Steam::Independent {
        LaunchedFrom::Independent
    } else {
        LaunchedFrom::Steam
    }
}

/// Prefix updates are left to Steam, whose Proton builds manage their prefixes.
pub fn is_prefix_update_disabled(env: &RuntimeEnvironment) -> (r: bool)
    ensures
        r == env.launched_from_steam,
{
    launched_from(env) == LaunchedFrom::Steam
}

/// Default window width: the Deck's screen width on a Deck.
pub fn default_window_size_width(env: &RuntimeEnvironment, default: i32) -> (r: i32)
    ensures
        r == (if env.steam_deck { 1280 } else { default }),
{
    if env.steam_deck {
        1280
    } else {
        default
    }
}

/// Default window height: the Deck's screen height on a Deck.
pub fn default_window_size_height(env: &RuntimeEnvironment, default: i32) -> (r: i32)
    ensures
        r == (if env.steam_deck { 800 } else { default }),
{
    if env.steam_deck {
        800
    } else {
        default
    }
}

/// Where Steam is installed, and its library folders.
#[derive(Debug, Clone, PartialEq, Eq)]
pub struct SteamInstall {
    pub root: String,
    pub library_folders: Vec<String>,
}

/// The folders searched for Proton builds: each library's `common` folder, then
/// `compatibilitytools.d` under Steam's own folder.
pub fn get_library_search_roots(steam: &SteamInstall) -> (r: Vec<String>)
    ensures
        r.len() == steam.library_folders.len() + 1,
        forall|i: int| 0 <= i < steam.library_folders.len() ==> #[trigger] r@[i]@ == joined(steam.library_folders@[i]@, "common"@),
        r@[r.len() - 1]@ == joined(steam.root@, "compatibilitytools.d"@),
{
    let mut out: Vec<String> = Vec::new();
    let mut i: usize = 0;
    while i < steam.library_folders.len()
        invariant
            i <= steam.library_folders.len(),
            out.len() == i,
            forall|m: int| 0 <= m < i ==> #[trigger] out@[m]@ == joined(steam.library_folders@[m]@, "common"@),
        decreases steam.library_folders.len() - i,
    {
        out.push(join_path(steam.library_folders[i].as_str(), "common"));
        i += 1;
    }
    out.push(join_path(steam.root.as_str(), "compatibilitytools.d"));
    out
}

/// A folder found in one of the search roots, with what was seen of it.
#[derive(Debug, Clone, PartialEq, Eq)]
pub struct CandidateDir {
    pub path: String,
    /// Last component of the path.
    pub dir_name: String,
    pub is_dir: bool,
    pub is_symlink: bool,
    /// Whether it holds a `proton` launcher script.
    pub has_proton: bool,
    /// Contents of its `version` file, when it could be read.
    pub version_file: Option<String>,
}

pub open spec fn is_proton_dir(c: CandidateDir) -> bool {
    c.is_dir && !c.is_symlink && c.has_proton
}

/// Whether a folder is a Proton build: a real directory, not a link to one
/// counted elsewhere, holding a `proton` launcher.
pub fn check_pld(c: &CandidateDir) -> (r: bool)
    ensures
        r == is_proton_dir(*c),
{
    c.is_dir && !c.is_symlink && c.has_proton
}

/// The paths of the folders that are Proton builds, in order.
pub fn filter_local_roots_by_proton_launcher(found: &Vec<CandidateDir>) -> (r: Vec<String>)
    ensures
        r@.map_values(|s: String| s@) == found@.filter(|c: CandidateDir| is_proton_dir(c)).map_values(
            |c: CandidateDir| c.path@,
        ),
{
    let mut out: Vec<String> = Vec::new();
    let mut i: usize = 0;
    while i < found.len()
        invariant
            i <= found.len(),
            out@.map_values(|s: String| s@) == found@.subrange(0, i as int).filter(
                |c: CandidateDir| is_proton_dir(c),
            ).map_values(|c: CandidateDir| c.path@),
        decreases found.len() - i,
    {
        let ghost before = out@;
        let ghost upto = found@.subrange(0, i + 1);
        assert(upto.drop_last() =~= found@.subrange(0, i as int));
        reveal(Seq::filter);
        if check_pld(&found[i]) {
            out.push(found[i].path.clone());
            assert(out@.map_values(|s: String| s@) =~= before.map_values(|s: String| s@).push(found@[i as int].path@));
        }
        i += 1;
    }
    assert(found@.subrange(0, found.len() as int) =~= found@);
    out
}

/// Whether the launcher should look for Proton builds at all: only under Steam,
/// with Steam's install located.
pub fn steam_proton_installed_paths(env: &RuntimeEnvironment, steam: &Option<SteamInstall>, found: &Vec<CandidateDir>) -> (r: Option<Vec<String>>)
    ensures
        r is None <==> (!env.launched_from_steam || steam is None),
        r is Some ==> r.unwrap()@.map_values(|s: String| s@) == found@.filter(|c: CandidateDir| is_proton_dir(c)).map_values(
            |c: CandidateDir| c.path@,
        ),
{
    if !env.launched_from_steam || steam.is_none() {
        None
    } else {
        Some(filter_local_roots_by_proton_launcher(found))
    }
}


/// Whether a character belongs to Unicode's White_Space property: tab to
/// carriage return, space, next line, no-break space, ogham space mark, the
/// spaces from en quad to hair space, line and paragraph separators, narrow
/// no-break space, medium mathematical space and ideographic space.
pub open spec fn is_white_space(c: char) -> bool {
    let u = c as u32;
    (0x9 <= u && u <= 0xD) || u == 0x20 || u == 0x85 || u == 0xA0 || u == 0x1680 || (0x2000 <= u && u <= 0x200A)
        || u == 0x2028 || u == 0x2029 || u == 0x202F || u == 0x205F || u == 0x3000
}

/// A text without its leading white space.
pub open spec fn trim_start(s: Seq<char>) -> Seq<char>
    decreases s.len(),
{
    if s.len() > 0 && is_white_space(s[0]) {
        trim_start(s.drop_first())
    } else {
        s
    }
}

/// A text without its trailing white space.
pub open spec fn trim_end(s: Seq<char>) -> Seq<char>
    decreases s.len(),
{
    if s.len() > 0 && is_white_space(s.last()) {
        trim_end(s.drop_last())
    } else {
        s
    }
}

/// A text without its leading and trailing white space.
pub open spec fn trimmed(s: Seq<char>) -> Seq<char> {
    trim_end(trim_start(s))
}

fn is_white_space_char(c: char) -> (r: bool)
    ensures
        r == is_white_space(c),
{
    let u = c as u32;
    (0x9 <= u && u <= 0xD) || u == 0x20 || u == 0x85 || u == 0xA0 || u == 0x1680 || (0x2000 <= u && u <= 0x200A)
        || u == 0x2028 || u == 0x2029 || u == 0x202F || u == 0x205F || u == 0x3000
}

/// The text without its leading and trailing white space, as `str::trim`
/// gives it.
fn trim_text(s: &str) -> (r: String)
    ensures
        r@ == trimmed(s@),
{
    let n = s.unicode_len();
    let mut a: usize = 0;
    assert(s@.subrange(0, n as int) =~= s@);
    while a < n && is_white_space_char(s.get_char(a))
        invariant
            a <= n,
            n == s@.len(),
            trim_start(s@) == trim_start(s@.subrange(a as int, n as int)),
        decreases n - a,
    {
        assert(s@.subrange(a as int, n as int).drop_first() =~= s@.subrange(a + 1, n as int));
        a += 1;
    }
    assert(trim_start(s@) == s@.subrange(a as int, n as int));
    let mut b: usize = n;
    while b > a && is_white_space_char(s.get_char(b - 1))
        invariant
            a <= b <= n,
            n == s@.len(),
            trimmed(s@) == trim_end(s@.subrange(a as int, b as int)),
        decreases b,
    {
        assert(s@.subrange(a as int, b as int).drop_last() =~= s@.subrange(a as int, b - 1));
        b -= 1;
    }
    assert(trimmed(s@) == s@.subrange(a as int, b as int));
    String::from_str(s.substring_char(a, b))
}

pub open spec fn first_space_from(s: Seq<char>, i: int) -> Option<int>
    decreases s.len() - i,
{
    if i < 0 || i >= s.len() {
        None
    } else if s[i] == ' ' {
        Some(i)
    } else {
        first_space_from(s, i + 1)
    }
}

/// Position of the first space of a text.
pub open spec fn first_space(s: Seq<char>) -> Option<int> {
    first_space_from(s, 0)
}

/// The build id before the first space of a `version` file and the name after
/// it, both trimmed; nothing unless there is a space and both are non-empty.
pub open spec fn version_parts(text: Seq<char>) -> Option<(Seq<char>, Seq<char>)> {
    match first_space(text) {
        None => None,
        Some(i) => {
            let build = trimmed(text.subrange(0, i));
            let name = trimmed(text.subrange(i + 1, text.len() as int));
            if build.len() > 0 && name.len() > 0 {
                Some((build, name))
            } else {
                None
            }
        },
    }
}

/// Splits a `version` file into its build id and its name.
pub fn split_version_file(text: &str) -> (r: Option<(String, String)>)
    ensures
        r is None ==> version_parts(text@) is None,
        r is Some ==> version_parts(text@) == Some((r.unwrap().0@, r.unwrap().1@)),
{
    let n = text.unicode_len();
    let mut i: usize = 0;
    while i < n
        invariant
            n == text@.len(),
            i <= n,
            first_space(text@) == first_space_from(text@, i as int),
        decreases n - i,
    {
        if text.get_char(i) == ' ' {
            let build = trim_text(text.substring_char(0, i));
            let name = trim_text(text.substring_char(i + 1, n));
            if build.as_str().unicode_len() > 0 && name.as_str().unicode_len() > 0 {
                return Some((build, name));
            } else {
                return None;
            }
        }
        i += 1;
    }
    None
}

/// The title and name of a Proton build: its folder's name, and the name its
/// `version` file gives.
pub fn get_split_names(c: &CandidateDir) -> (r: Option<(String, String)>)
    ensures
        r is None <==> (c.version_file is None || version_parts(c.version_file.unwrap()@) is None),
        r is Some ==> r.unwrap().0@ == trimmed(c.dir_name@) && r.unwrap().1@ == version_parts(c.version_file.unwrap()@).unwrap().1,
{
    match &c.version_file {
        Some(text) => match split_version_file(text.as_str()) {
            Some((_build, name)) => Some((trim_text(c.dir_name.as_str()), name)),
            None => None,
        },
        None => None,
    }
}

/// How Steam's environment reaches a Proton build: the values of
/// `STEAM_COMPAT_DATA_PATH`, `STEAM_COMPAT_CLIENT_INSTALL_PATH` and `SteamAppId`.
#[derive(Debug, Clone, PartialEq, Eq)]
pub struct SteamCompat {
    pub compat_data_path: Option<String>,
    pub client_install_path: Option<String>,
    pub app_id: Option<String>,
}

/// A variable's value from Steam's environment, or `fallback` when Steam did not set it.
pub open spec fn value_or(v: Option<String>, fallback: Seq<char>) -> Seq<char> {
    match v {
        Some(x) => x@,
        None => fallback,
    }
}

/// The fixed features of Steam's Proton builds. The environment always wires
/// the three variables: the compat data path falls back to the launcher's
/// prefix (`%prefix%`), the client install path to Steam's own folder
/// `steam_root`, and the app id to `0`, the id Steam gives games outside its
/// store.
pub open spec fn proton_features_of(c: SteamCompat, steam_root: Seq<char>) -> FeaturesView {
    FeaturesView {
        bundle: Some(Bundle::Proton),
        need_dxvk: true,
        compact_launch: true,
        prefix_subdir: Some("pfx"@),
        command: Some("python3 '%build%/proton' waitforexitandrun"@),
        env: seq![
            ("STEAM_COMPAT_DATA_PATH"@, value_or(c.compat_data_path, "%prefix%"@)),
            ("STEAM_COMPAT_CLIENT_INSTALL_PATH"@, value_or(c.client_install_path, steam_root)),
            ("SteamAppId"@, value_or(c.app_id, "0"@)),
        ],
        managed_prefix: text_view(c.compat_data_path),
    }
}

fn value_or_else(v: &Option<String>, fallback: &str) -> (r: String)
    ensures
        r@ == value_or(*v, fallback@),
{
    match v {
        Some(x) => x.clone(),
        None => String::from_str(fallback),
    }
}

/// The features of Steam's Proton builds, for Steam installed in `steam_root`.
pub fn proton_features(c: &SteamCompat, steam_root: &str) -> (r: Features)
    ensures
        r@ == proton_features_of(*c, steam_root@),
        crate::components::unique_keys(r@.env),
{
    proof {
        reveal_strlit("STEAM_COMPAT_DATA_PATH");
        reveal_strlit("STEAM_COMPAT_CLIENT_INSTALL_PATH");
        reveal_strlit("SteamAppId");
    }
    let mut env: Vec<(String, String)> = Vec::new();
    env.push((String::from_str("STEAM_COMPAT_DATA_PATH"), value_or_else(&c.compat_data_path, "%prefix%")));
    env.push((String::from_str("STEAM_COMPAT_CLIENT_INSTALL_PATH"), value_or_else(&c.client_install_path, steam_root)));
    env.push((String::from_str("SteamAppId"), value_or_else(&c.app_id, "0")));
    let r = Features {
        bundle: Some(Bundle::Proton),
        need_dxvk: true,
        compact_launch: true,
        prefix_subdir: Some(String::from_str("pfx")),
        command: Some(String::from_str("python3 '%build%/proton' waitforexitandrun")),
        env,
        managed_prefix: crate::json::copy_text(&c.compat_data_path),
    };
    assert(r@.env =~= proton_features_of(*c, steam_root@).env);
    assert("STEAM_COMPAT_DATA_PATH"@.len() == 22 && "STEAM_COMPAT_CLIENT_INSTALL_PATH"@.len() == 32 && "SteamAppId"@.len() == 10);
    assert(r@.env[0].0 != r@.env[1].0 && r@.env[0].0 != r@.env[2].0 && r@.env[1].0 != r@.env[2].0);
    r
}

pub open spec fn proton_files() -> FilesView {
    FilesView { wine: "proton"@, wine64: None, wineserver: None, wineboot: None, winecfg: None }
}

/// The build that a found folder stands for, if it is a Proton build whose
/// `version` file names it.
pub open spec fn candidate_version(c: CandidateDir, f: FeaturesView) -> Option<VersionView> {
    if !is_proton_dir(c) {
        None
    } else {
        match c.version_file {
            None => None,
            Some(t) => match version_parts(t@) {
                None => None,
                Some(parts) => Some(
                    VersionView {
                        name: parts.1,
                        title: trimmed(c.dir_name@),
                        uri: trimmed(c.path@),
                        files: Some(proton_files()),
                        features: Some(f),
                        managed: true,
                    },
                ),
            },
        }
    }
}

/// The builds that the found folders stand for, in order.
pub open spec fn proton_versions(cs: Seq<CandidateDir>, f: FeaturesView) -> Seq<VersionView>
    decreases cs.len(),
{
    if cs.len() == 0 {
        seq![]
    } else {
        let rest = proton_versions(cs.drop_last(), f);
        match candidate_version(cs.last(), f) {
            Some(v) => rest.push(v),
            None => rest,
        }
    }
}

/// The one group that stands for Steam's Proton builds.
pub open spec fn proton_group_of(cs: Seq<CandidateDir>, c: SteamCompat, steam_root: Seq<char>) -> GroupView {
    GroupView {
        name: "steam-proton"@,
        title: "Proton Runners via Steam"@,
        features: Some(proton_features_of(c, steam_root)),
        versions: proton_versions(cs, proton_features_of(c, steam_root)),
        managed: true,
    }
}

/// Whether `name` is what the `version` file of a Proton folder among `found`
/// names, a file holding a build id and a name separated by a space.
pub open spec fn named_by_version_file(found: Seq<CandidateDir>, name: Seq<char>) -> bool {
    exists|i: int|
        0 <= i < found.len() && is_proton_dir(#[trigger] found[i]) && found[i].version_file is Some
        && version_parts(found[i].version_file.unwrap()@) is Some
        && version_parts(found[i].version_file.unwrap()@).unwrap().1 == name
}

/// Whether each build is named by the `version` file of a Proton folder among `found`.
pub open spec fn named_by_version_files(found: Seq<CandidateDir>, vs: Seq<VersionView>) -> bool {
    forall|k: int| 0 <= k < vs.len() ==> #[trigger] named_by_version_file(found, vs[k].name)
}

/// Every build reported comes from a Proton folder whose `version` file holds a
/// build id and a name separated by a space, and carries that name.
pub proof fn lemma_discovered_have_version_line(found: Seq<CandidateDir>, f: FeaturesView)
    ensures
        named_by_version_files(found, proton_versions(found, f)),
    decreases found.len(),
{
    if found.len() > 0 {
        let rest = found.drop_last();
        lemma_discovered_have_version_line(rest, f);
        let out = proton_versions(found, f);
        let prev = proton_versions(rest, f);
        assert forall|k: int| 0 <= k < out.len() implies #[trigger] named_by_version_file(found, out[k].name) by {
            if k < prev.len() {
                assert(out[k] == prev[k]);
                assert(named_by_version_file(rest, prev[k].name));
                let i = choose|i: int|
                    0 <= i < rest.len() && is_proton_dir(#[trigger] rest[i]) && rest[i].version_file is Some
                    && version_parts(rest[i].version_file.unwrap()@) is Some
                    && version_parts(rest[i].version_file.unwrap()@).unwrap().1 == prev[k].name;
                assert(found[i] == rest[i]);
            } else {
                assert(found[found.len() - 1] == found.last());
            }
        }
    }
}

fn proton_version(c: &CandidateDir, f: &Features) -> (r: Option<Version>)
    ensures
        r is None ==> candidate_version(*c, f@) is None,
        r is Some ==> candidate_version(*c, f@) == Some(r.unwrap()@),
{
    if !check_pld(c) {
        return None;
    }
    match get_split_names(c) {
        Some((title, name)) => {
            let files = Files {
                wine: String::from_str("proton"),
                wine64: None,
                wineserver: None,
                wineboot: None,
                winecfg: None,
            };
            let v = Version {
                name,
                title,
                uri: trim_text(c.path.as_str()),
                files: Some(files),
                features: Some(f.duplicate()),
                managed: true,
            };
            assert(v@ =~= candidate_version(*c, f@).unwrap());
            Some(v)
        },
        None => None,
    }
}

/// The group of Steam's Proton builds among the folders found in the search roots.
pub fn proton_group(found: &Vec<CandidateDir>, compat: &SteamCompat, steam_root: &str) -> (r: Group)
    ensures
        r@ == proton_group_of(found@, *compat, steam_root@),
        named_by_version_files(found@, r@.versions),
{
    let features = proton_features(compat, steam_root);
    let mut versions: Vec<Version> = Vec::new();
    let mut i: usize = 0;
    assert(found@.subrange(0, 0) =~= Seq::<CandidateDir>::empty());
    assert(versions_view(versions@) =~= Seq::<VersionView>::empty());
    while i < found.len()
        invariant
            i <= found.len(),
            features@ == proton_features_of(*compat, steam_root@),
            versions_view(versions@) == proton_versions(found@.subrange(0, i as int), features@),
        decreases found.len() - i,
    {
        let ghost before = versions@;
        let ghost upto = found@.subrange(0, i + 1);
        assert(upto.drop_last() =~= found@.subrange(0, i as int));
        assert(upto.last() == found@[i as int]);
        match proton_version(&found[i], &features) {
            Some(v) => {
                versions.push(v);
                assert(versions_view(versions@) =~= versions_view(before).push(v@));
            },
            None => {},
        }
        i += 1;
    }
    assert(found@.subrange(0, found.len() as int) =~= found@);
    let r = Group {
        name: String::from_str("steam-proton"),
        title: String::from_str("Proton Runners via Steam"),
        features: Some(features),
        versions,
        managed: true,
    };
    proof {
        lemma_discovered_have_version_line(found@, proton_features_of(*compat, steam_root@));
        assert(r@.versions == proton_versions(found@, proton_features_of(*compat, steam_root@)));
    }
    r
}

/// Steam's install could not be located while the launcher runs under Steam.
#[derive(Debug, Clone, Copy, PartialEq, Eq, Structural)]
pub struct DiscoveryError;

/// The runner groups that Steam provides: exactly one group holding every
/// Proton build found, which bypasses the catalog. Fails only when the launcher
/// runs under Steam and Steam's install was not located; outside Steam with no
/// Steam install the group has no builds, and an empty Steam folder stands in
/// for the client install path.
pub fn get_proton_installs_as_wines(
    env: &RuntimeEnvironment,
    steam: &Option<SteamInstall>,
    found: &Vec<CandidateDir>,
    compat: &SteamCompat,
) -> (r: Result<Vec<Group>, DiscoveryError>)
    ensures
        r is Err <==> (steam is None && env.launched_from_steam),
        steam is None && !env.launched_from_steam ==> r is Ok && groups_view(r.unwrap()@) == seq![
            proton_group_of(seq![], *compat, seq![]),
        ],
        steam is Some ==> r is Ok && groups_view(r.unwrap()@) == seq![proton_group_of(found@, *compat, steam.unwrap().root@)],
{
    match steam {
        None => if env.launched_from_steam {
            Err(DiscoveryError)
        } else {
            let none: Vec<CandidateDir> = Vec::new();
            let root = "";
            proof {
                reveal_strlit("");
            }
            assert(root@ =~= Seq::<char>::empty());
            assert(none@ =~= Seq::<CandidateDir>::empty());
            let mut out: Vec<Group> = Vec::new();
            out.push(proton_group(&none, compat, root));
            assert(groups_view(out@) =~= seq![proton_group_of(seq![], *compat, seq![])]);
            Ok(out)
        },
        Some(s) => {
            let mut out: Vec<Group> = Vec::new();
            out.push(proton_group(found, compat, s.root.as_str()));
            assert(groups_view(out@) =~= seq![proton_group_of(found@, *compat, s.root@)]);
            Ok(out)
        },
    }
}

} // verus!
