//! Folders and configuration of the Genshin Impact launcher.

use vstd::prelude::*;
use crate::common::{FolderVars, base_install_dir, cache_folder, config_in, data_folder, placed};
use crate::components::{pairs_view, text_entries, text_view};
use crate::json::Json;
use crate::paths::{join_path, joined};
use crate::steam::LaunchedFrom;

verus! {

/// Name of the launcher's data and cache folders.
pub const FOLDER_NAME: &'static str = "anime-game-launcher";

/// The launcher's data folder.
pub fn launcher_dir(vars: &FolderVars) -> (r: Option<String>)
    ensures
        text_view(r) == placed(vars.launcher_folder, vars.xdg_data_home, vars.home, "/.local/share"@, FOLDER_NAME@),
{
    data_folder(vars, FOLDER_NAME)
}

/// The launcher's cache folder.
pub fn cache_dir(vars: &FolderVars) -> (r: Option<String>)
    ensures
        text_view(r) == placed(vars.cache_folder, vars.xdg_cache_home, vars.home, "/.cache"@, FOLDER_NAME@),
{
    cache_folder(vars, FOLDER_NAME)
}

/// `config.json` in the launcher's data folder.
pub fn config_file(vars: &FolderVars) -> (r: Option<String>)
    ensures
        r is None <==> launcher_dir_of(*vars) is None,
        r is Some ==> r.unwrap()@ == joined(launcher_dir_of(*vars).unwrap(), "config.json"@),
{
    config_in(&launcher_dir(vars))
}

pub open spec fn launcher_dir_of(vars: FolderVars) -> Option<Seq<char>> {
    placed(vars.launcher_folder, vars.xdg_data_home, vars.home, "/.local/share"@, FOLDER_NAME@)
}

/// Where games are installed by default: see `base_install_dir`; nothing when
/// the launcher folder cannot be placed.
pub fn base_game_install_dir(vars: &FolderVars, from: LaunchedFrom, compat_drive: &Option<String>) -> (r: Option<String>)
    ensures
        r is None <==> launcher_dir_of(*vars) is None,
        r is Some && from == LaunchedFrom::Steam && compat_drive is Some ==> r.unwrap()@ == compat_drive.unwrap()@,
        r is Some && !(from == LaunchedFrom::Steam && compat_drive is Some) ==> r.unwrap()@ == launcher_dir_of(*vars).unwrap(),
{
    match launcher_dir(vars) {
        Some(dir) => Some(base_install_dir(dir, from, compat_drive)),
        None => None,
    }
}

/// The regional edition of the game.
#[derive(Debug, Clone, Copy, PartialEq, Eq, Structural)]
pub enum GameEdition {
    Global,
    China,
}

/// Where each edition of the game is installed.
#[derive(Debug, Clone, PartialEq, Eq)]
pub struct Paths {
    pub global: String,
    pub china: String,
}

pub open spec fn game_name() -> Seq<char> {
    "Ge"@ + "nshi"@ + "n"@ + " "@ + "Imp"@ + "act"@
}

/// The game's name, put together from pieces.
pub fn concat_gen_shin() -> (r: String)
    ensures
        r@ == game_name(),
{
    let mut s = String::from_str("Ge");
    s.append("nshi");
    s.append("n");
    s.append(" ");
    s.append("Imp");
    s.append("act");
    s
}

/// The name of the game's folder inside a Steam install.
pub fn concat_gen_shin_game() -> (r: String)
    ensures
        r@ == game_name() + " "@ + "game"@,
{
    let mut s = concat_gen_shin();
    s.append(" ");
    s.append("game");
    s
}

pub open spec fn global_dir(launcher_dir: Seq<char>, from: LaunchedFrom) -> Seq<char> {
    match from {
        LaunchedFrom::Independent => joined(launcher_dir, game_name()),
        LaunchedFrom::Steam => joined(joined(launcher_dir, game_name()), game_name() + " "@ + "game"@),
    }
}

/// The default folder of the global edition: under Steam, the game sits one
/// folder deeper, as Steam lays it out.
pub fn get_global_launchdir(launcher_dir: &str, from: LaunchedFrom) -> (r: String)
    ensures
        r@ == global_dir(launcher_dir@, from),
{
    let name = concat_gen_shin();
    let dir = join_path(launcher_dir, name.as_str());
    match from {
        LaunchedFrom::Independent => dir,
        LaunchedFrom::Steam => join_path(dir.as_str(), concat_gen_shin_game().as_str()),
    }
}

pub open spec fn text_or(v: Option<Json>, default: Seq<char>) -> Seq<char> {
    match v {
        Some(Json::Str(s)) => s@,
        _ => default,
    }
}

impl Paths {
    /// The folder of the given edition.
    pub fn for_edition(&self, edition: GameEdition) -> (r: &String)
        ensures
            edition == GameEdition::Global ==> r == &self.global,
            edition == GameEdition::China ==> r == &self.china,
    {
        match edition {
            GameEdition::Global => &self.global,
            GameEdition::China => &self.china,
        }
    }

    /// Default folders under the base install folder.
    pub fn defaults(base: &str, from: LaunchedFrom) -> (r: Paths)
        ensures
            r.global@ == global_dir(base@, from),
            r.china@ == joined(base@, "Yu"@ + "anS"@ + "hen"@),
    {
        let mut china = String::from_str("Yu");
        china.append("anS");
        china.append("hen");
        Paths { global: get_global_launchdir(base, from), china: join_path(base, china.as_str()) }
    }

    /// Folders read from a configuration object; each one that is missing or
    /// not a string keeps its default.
    pub fn from_json(j: &Json, default: Paths) -> (r: Paths)
        ensures
            r.global@ == text_or(j.member("global"@), default.global@),
            r.china@ == text_or(j.member("china"@), default.china@),
    {
        let global = match j.get("global") {
            Some(Json::Str(s)) => s.clone(),
            _ => default.global,
        };
        let china = match j.get("china") {
            Some(Json::Str(s)) => s.clone(),
            _ => default.china,
        };
        Paths { global, china }
    }
}

/// The launcher window's style.
#[derive(Debug, Clone, Copy, PartialEq, Eq, Structural)]
pub enum LauncherStyle {
    Modern,
    Classic,
}

impl Default for LauncherStyle {
    fn default() -> (r: LauncherStyle)
        ensures
            r == LauncherStyle::Modern,
    {
        LauncherStyle::Modern
    }
}

pub open spec fn style_of(j: Json) -> LauncherStyle {
    match j {
        Json::Str(s) => if s@ == "Classic"@ {
            LauncherStyle::Classic
        } else {
            LauncherStyle::Modern
        },
        _ => LauncherStyle::Modern,
    }
}

impl LauncherStyle {
    /// The style a configuration value names; the default for anything else.
    pub fn from_json(j: &Json) -> (r: LauncherStyle)
        ensures
            r == style_of(*j),
    {
        match j {
            Json::Str(s) => if crate::json::text_is(s, "Classic") {
                LauncherStyle::Classic
            } else {
                LauncherStyle::Modern
            },
            _ => LauncherStyle::Modern,
        }
    }
}

/// What the launcher does with its window while the game runs.
#[derive(Debug, Clone, Copy, PartialEq, Eq, Structural)]
pub enum LauncherBehavior {
    Nothing,
    Hide,
    Close,
}

impl Default for LauncherBehavior {
    fn default() -> (r: LauncherBehavior)
        ensures
            r == LauncherBehavior::Hide,
    {
        LauncherBehavior::Hide
    }
}

pub open spec fn behavior_of(j: Json, default: LauncherBehavior) -> LauncherBehavior {
    match j {
        Json::Str(s) => if s@ == "Nothing"@ {
            LauncherBehavior::Nothing
        } else if s@ == "Hide"@ {
            LauncherBehavior::Hide
        } else if s@ == "Close"@ {
            LauncherBehavior::Close
        } else {
            default
        },
        _ => default,
    }
}

impl LauncherBehavior {
    /// The behavior a configuration value names; `default` for anything else.
    pub fn from_json(j: &Json, default: LauncherBehavior) -> (r: LauncherBehavior)
        ensures
            r == behavior_of(*j, default),
    {
        match j {
            Json::Str(s) => if crate::json::text_is(s, "Nothing") {
                LauncherBehavior::Nothing
            } else if crate::json::text_is(s, "Hide") {
                LauncherBehavior::Hide
            } else if crate::json::text_is(s, "Close") {
                LauncherBehavior::Close
            } else {
                default
            },
            _ => default,
        }
    }
}

/// The strings among a list's items, in order.
pub open spec fn text_items(items: Seq<Json>) -> Seq<Seq<char>>
    decreases items.len(),
{
    if items.len() == 0 {
        seq![]
    } else {
        let rest = text_items(items.drop_last());
        match items.last() {
            Json::Str(s) => rest.push(s@),
            _ => rest,
        }
    }
}

pub open spec fn names_view(v: Seq<String>) -> Seq<Seq<char>> {
    v.map_values(|s: String| s@)
}

fn text_items_of(items: &Vec<Json>) -> (r: Vec<String>)
    ensures
        names_view(r@) == text_items(items@),
{
    let mut out: Vec<String> = Vec::new();
    let mut i: usize = 0;
    assert(items@.subrange(0, 0) =~= Seq::<Json>::empty());
    assert(names_view(out@) =~= Seq::<Seq<char>>::empty());
    while i < items.len()
        invariant
            i <= items.len(),
            names_view(out@) == text_items(items@.subrange(0, i as int)),
        decreases items.len() - i,
    {
        let ghost before = out@;
        assert(items@.subrange(0, i + 1).drop_last() =~= items@.subrange(0, i as int));
        if let Json::Str(s) = &items[i] {
            out.push(s.clone());
            assert(names_view(out@) =~= names_view(before).push(s@));
        }
        i += 1;
    }
    assert(items@.subrange(0, items.len() as int) =~= items@);
    out
}

fn copy_names(v: &Vec<String>) -> (r: Vec<String>)
    ensures
        r@ == v@,
{
    let mut out: Vec<String> = Vec::new();
    let mut i: usize = 0;
    while i < v.len()
        invariant
            i <= v.len(),
            out@ == v@.subrange(0, i as int),
        decreases v.len() - i,
    {
        out.push(v[i].clone());
        i += 1;
        assert(out@ =~= v@.subrange(0, i as int));
    }
    assert(out@ =~= v@);
    out
}

/// Game settings of the configuration that the library reads.
#[derive(Debug, Clone, PartialEq, Eq)]
pub struct Game {
    pub path: Paths,
    /// Selected voice locales.
    pub voices: Vec<String>,
    /// Extra environment variables for the game.
    pub environment: Vec<(String, String)>,
    /// Launch command override.
    pub command: Option<String>,
    pub telemetry_ignored: bool,
}

impl Game {
    /// Default settings with the given folders: English voices, nothing else set.
    pub fn defaults(path: Paths) -> (r: Game)
        ensures
            r.path == path,
            names_view(r.voices@) == seq!["en-us"@],
            r.environment@.len() == 0,
            r.command is None,
            !r.telemetry_ignored,
    {
        let mut voices: Vec<String> = Vec::new();
        voices.push(String::from_str("en-us"));
        assert(names_view(voices@) =~= seq!["en-us"@]);
        Game { path, voices, environment: Vec::new(), command: None, telemetry_ignored: false }
    }

    /// Settings read from a configuration object. A field that is missing or
    /// of the wrong type keeps its default; list items and variables that are
    /// not strings are skipped; a null command clears it.
    pub fn from_json(j: &Json, default: Game) -> (r: Game)
        ensures
            r.path.global@ == (match j.member("path"@) {
                Some(p) => text_or(p.member("global"@), default.path.global@),
                None => default.path.global@,
            }),
            r.path.china@ == (match j.member("path"@) {
                Some(p) => text_or(p.member("china"@), default.path.china@),
                None => default.path.china@,
            }),
            names_view(r.voices@) == (match j.member("voices"@) {
                Some(Json::Array(items)) => text_items(items@),
                _ => names_view(default.voices@),
            }),
            pairs_view(r.environment@) == (match j.member("environment"@) {
                Some(Json::Object(entries)) => text_entries(entries@),
                _ => pairs_view(default.environment@),
            }),
            text_view(r.command) == (match j.member("command"@) {
                Some(Json::Null) => None,
                Some(Json::Str(s)) => Some(s@),
                _ => text_view(default.command),
            }),
            r.telemetry_ignored == crate::components::bool_member(*j, "telemetry_ignored"@, default.telemetry_ignored),
    {
        let path = match j.get("path") {
            Some(p) => Paths::from_json(p, default.path),
            None => default.path,
        };
        let voices = match j.get("voices") {
            Some(Json::Array(items)) => text_items_of(items),
            _ => copy_names(&default.voices),
        };
        let environment = match j.get("environment") {
            Some(Json::Object(entries)) => crate::components::text_entries_of(entries),
            _ => default.environment,
        };
        let command = match j.get("command") {
            Some(Json::Null) => None,
            Some(Json::Str(s)) => Some(s.clone()),
            _ => default.command,
        };
        let telemetry_ignored = crate::components::bool_field(j, "telemetry_ignored", default.telemetry_ignored);
        Game { path, voices, environment, command, telemetry_ignored }
    }
}


pub open spec fn edition_of(j: Json, default: GameEdition) -> GameEdition {
    match j {
        Json::Str(s) => if s@ == "Global"@ {
            GameEdition::Global
        } else if s@ == "China"@ {
            GameEdition::China
        } else {
            default
        },
        _ => default,
    }
}

impl GameEdition {
    /// The edition a configuration value names; `default` for anything else.
    pub fn from_json(j: &Json, default: GameEdition) -> (r: GameEdition)
        ensures
            r == edition_of(*j, default),
    {
        match j {
            Json::Str(s) => if crate::json::text_is(s, "Global") {
                GameEdition::Global
            } else if crate::json::text_is(s, "China") {
                GameEdition::China
            } else {
                default
            },
            _ => default,
        }
    }
}

/// Launcher settings of the configuration that the library reads.
#[derive(Debug, Clone, PartialEq, Eq)]
pub struct Launcher {
    /// Interface language.
    pub language: String,
    pub edition: GameEdition,
    pub style: LauncherStyle,
    /// Folder for downloads in progress.
    pub temp: Option<String>,
    /// Accept runners and setups the launcher cannot vouch for.
    pub permissive: bool,
    pub behavior: LauncherBehavior,
}

impl Launcher {
    /// Default settings: English interface, default style and behavior; the
    /// edition, temporary folder and permissiveness come from the environment.
    pub fn defaults(edition: GameEdition, temp: Option<String>, permissive: bool) -> (r: Launcher)
        ensures
            r.language@ == "en-us"@,
            r.edition == edition,
            r.style == LauncherStyle::Modern,
            r.temp == temp,
            r.permissive == permissive,
            r.behavior == LauncherBehavior::Hide,
    {
        Launcher {
            language: String::from_str("en-us"),
            edition,
            style: LauncherStyle::Modern,
            temp,
            permissive,
            behavior: LauncherBehavior::Hide,
        }
    }

    /// Settings read from a configuration object. A missing field keeps its
    /// default; one of the wrong type keeps it too, but for the style, which
    /// falls back to `Modern`, and the permissive flag, which falls back to
    /// false, as does a missing one. A null `temp` clears it.
    pub fn from_json(j: &Json, default: Launcher) -> (r: Launcher)
        ensures
            r.language@ == text_or(j.member("language"@), default.language@),
            r.edition == (match j.member("edition"@) {
                Some(v) => edition_of(v, default.edition),
                None => default.edition,
            }),
            r.style == (match j.member("style"@) {
                Some(v) => style_of(v),
                None => default.style,
            }),
            text_view(r.temp) == (match j.member("temp"@) {
                Some(Json::Null) => None,
                Some(Json::Str(s)) => Some(s@),
                _ => text_view(default.temp),
            }),
            r.permissive == (j.member("permissive"@) matches Some(Json::Bool(true))),
            r.behavior == (match j.member("behavior"@) {
                Some(v) => behavior_of(v, default.behavior),
                None => default.behavior,
            }),
    {
        let language = match j.get("language") {
            Some(Json::Str(s)) => s.clone(),
            _ => default.language,
        };
        let edition = match j.get("edition") {
            Some(v) => GameEdition::from_json(v, default.edition),
            None => default.edition,
        };
        let style = match j.get("style") {
            Some(v) => LauncherStyle::from_json(v),
            None => default.style,
        };
        let temp = match j.get("temp") {
            Some(Json::Null) => None,
            Some(Json::Str(s)) => Some(s.clone()),
            _ => default.temp,
        };
        let permissive = match j.get("permissive") {
            Some(Json::Bool(b)) => *b,
            _ => false,
        };
        let behavior = match j.get("behavior") {
            Some(v) => LauncherBehavior::from_json(v, default.behavior),
            None => default.behavior,
        };
        Launcher { language, edition, style, temp, permissive, behavior }
    }
}

} // verus!
