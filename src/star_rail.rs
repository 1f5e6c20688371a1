//! Folders and game paths of the Honkai: Star Rail launcher.

use vstd::prelude::*;
use crate::common::{FolderVars, base_install_dir, cache_folder, config_in, data_folder, placed};
use crate::components::text_view;
use crate::genshin::{GameEdition, text_or};
use crate::json::Json;
use crate::paths::{join_path, joined};
use crate::steam::LaunchedFrom;

verus! {

/// Name of the launcher's data and cache folders.
pub const FOLDER_NAME: &'static str = "honkers-railway-launcher";

pub open spec fn launcher_dir_of(vars: FolderVars) -> Option<Seq<char>> {
    placed(vars.launcher_folder, vars.xdg_data_home, vars.home, "/.local/share"@, FOLDER_NAME@)
}

/// The launcher's data folder.
pub fn launcher_dir(vars: &FolderVars) -> (r: Option<String>)
    ensures
        text_view(r) == launcher_dir_of(*vars),
{
    data_folder(vars, FOLDER_NAME)
}

/// The launcher's cache folder.
pub fn cache_dir(vars: &FolderVars) -> (r: Option<String>)
    ensures
        text_view(r) == placed(vars.cache_folder, vars.xdg_cache_home, vars.home, "/.cache"@, FOLDER_NAME@),
{
    cache_folder(vars, FOLDER_NAME)
}

/// `config.json` in the launcher's data folder.
pub fn config_file(vars: &FolderVars) -> (r: Option<String>)
    ensures
        r is None <==> launcher_dir_of(*vars) is None,
        r is Some ==> r.unwrap()@ == joined(launcher_dir_of(*vars).unwrap(), "config.json"@),
{
    config_in(&launcher_dir(vars))
}

/// Where games are installed by default: see `base_install_dir`; nothing when
/// the launcher folder cannot be placed.
pub fn base_game_install_dir(vars: &FolderVars, from: LaunchedFrom, compat_drive: &Option<String>) -> (r: Option<String>)
    ensures
        r is None <==> launcher_dir_of(*vars) is None,
        r is Some && from == LaunchedFrom::Steam && compat_drive is Some ==> r.unwrap()@ == compat_drive.unwrap()@,
        r is Some && !(from == LaunchedFrom::Steam && compat_drive is Some) ==> r.unwrap()@ == launcher_dir_of(*vars).unwrap(),
{
    match launcher_dir(vars) {
        Some(dir) => Some(base_install_dir(dir, from, compat_drive)),
        None => None,
    }
}

/// Where each edition of the game is installed.
#[derive(Debug, Clone, PartialEq, Eq)]
pub struct Paths {
    pub global: String,
    pub china: String,
}

impl Paths {
    /// The folder of the given edition.
    pub fn for_edition(&self, edition: GameEdition) -> (r: &String)
        ensures
            edition == GameEdition::Global ==> r == &self.global,
            edition == GameEdition::China ==> r == &self.china,
    {
        match edition {
            GameEdition::Global => &self.global,
            GameEdition::China => &self.china,
        }
    }

    /// Default folders under the base install folder; under Steam the global
    /// edition sits where Steam lays it out.
    pub fn defaults(base: &str, from: LaunchedFrom) -> (r: Paths)
        ensures
            from == LaunchedFrom::Independent ==> r.global@ == joined(base@, "HSR"@),
            from == LaunchedFrom::Steam ==> r.global@ == joined(joined(base@, "StarRail"@), "Games"@),
            r.china@ == joined(base@, "HSR China"@),
    {
        let global = match from {
            LaunchedFrom::Independent => join_path(base, "HSR"),
            LaunchedFrom::Steam => {
                let dir = join_path(base, "StarRail");
                join_path(dir.as_str(), "Games")
            },
        };
        Paths { global, china: join_path(base, "HSR China") }
    }

    /// Folders read from a configuration object; each one that is missing or
    /// not a string keeps its default.
    pub fn from_json(j: &Json, default: Paths) -> (r: Paths)
        ensures
            r.global@ == text_or(j.member("global"@), default.global@),
            r.china@ == text_or(j.member("china"@), default.china@),
    {
        let global = match j.get("global") {
            Some(Json::Str(s)) => s.clone(),
            _ => default.global,
        };
        let china = match j.get("china") {
            Some(Json::Str(s)) => s.clone(),
            _ => default.china,
        };
        Paths { global, china }
    }
}

} // verus!
