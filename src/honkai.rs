//! Folders of the Honkai Impact 3rd launcher.

use vstd::prelude::*;
use crate::common::{FolderVars, base_install_dir, cache_folder, config_in, data_folder, placed};
use crate::components::text_view;
use crate::paths::joined;
use crate::steam::LaunchedFrom;

verus! {

/// Name of the launcher's data and cache folders.
pub const FOLDER_NAME: &'static str = "honkers-launcher";

pub open spec fn launcher_dir_of(vars: FolderVars) -> Option<Seq<char>> {
    placed(vars.launcher_folder, vars.xdg_data_home, vars.home, "/.local/share"@, FOLDER_NAME@)
}

/// The launcher's data folder.
pub fn launcher_dir(vars: &FolderVars) -> (r: Option<String>)
    ensures
        text_view(r) == launcher_dir_of(*vars),
{
    data_folder(vars, FOLDER_NAME)
}

/// The launcher's cache folder.
pub fn cache_dir(vars: &FolderVars) -> (r: Option<String>)
    ensures
        text_view(r) == placed(vars.cache_folder, vars.xdg_cache_home, vars.home, "/.cache"@, FOLDER_NAME@),
{
    cache_folder(vars, FOLDER_NAME)
}

/// `config.json` in the launcher's data folder.
pub fn config_file(vars: &FolderVars) -> (r: Option<String>)
    ensures
        r is None <==> launcher_dir_of(*vars) is None,
        r is Some ==> r.unwrap()@ == joined(launcher_dir_of(*vars).unwrap(), "config.json"@),
{
    config_in(&launcher_dir(vars))
}

/// Where the game is installed by default: the folder of a game that Steam
/// installed, when there is one; else see `base_install_dir`; nothing when
/// neither that nor the launcher folder is known.
pub fn base_game_install_dir(
    vars: &FolderVars,
    from: LaunchedFrom,
    compat_drive: &Option<String>,
    steam_game: &Option<String>,
) -> (r: Option<String>)
    ensures
        steam_game is Some ==> r is Some && r.unwrap()@ == steam_game.unwrap()@,
        steam_game is None ==> (r is None <==> launcher_dir_of(*vars) is None),
        steam_game is None && r is Some && from == LaunchedFrom::Steam && compat_drive is Some ==> r.unwrap()@ == compat_drive.unwrap()@,
        steam_game is None && r is Some && !(from == LaunchedFrom::Steam && compat_drive is Some) ==> r.unwrap()@ == launcher_dir_of(*vars).unwrap(),
{
    match steam_game {
        Some(dir) => Some(dir.clone()),
        None => match launcher_dir(vars) {
            Some(dir) => Some(base_install_dir(dir, from, compat_drive)),
            None => None,
        },
    }
}

} // verus!
