//! Placing the launcher's folders, shared by every game.

use vstd::prelude::*;
use crate::paths::{join_path, joined};
use crate::steam::LaunchedFrom;

verus! {

/// The environment variables that place the launcher's folders.
#[derive(Debug, Clone, PartialEq, Eq)]
pub struct FolderVars {
    /// `LAUNCHER_FOLDER`
    pub launcher_folder: Option<String>,
    /// `CACHE_FOLDER`
    pub cache_folder: Option<String>,
    /// `XDG_DATA_HOME`
    pub xdg_data_home: Option<String>,
    /// `XDG_CACHE_HOME`
    pub xdg_cache_home: Option<String>,
    /// `HOME`
    pub home: Option<String>,
}

/// A folder placed by an override variable, else by an XDG base folder, else
/// by a folder under the home directory.
pub open spec fn placed(overridden: Option<String>, xdg: Option<String>, home: Option<String>, under_home: Seq<char>, name: Seq<char>) -> Option<Seq<char>> {
    match overridden {
        Some(f) => Some(f@),
        None => match xdg {
            Some(x) => Some(joined(x@, name)),
            None => match home {
                Some(h) => Some(joined(h@ + under_home, name)),
                None => None,
            },
        },
    }
}

fn place(overridden: &Option<String>, xdg: &Option<String>, home: &Option<String>, under_home: &str, name: &str) -> (r: Option<String>)
    ensures
        crate::components::text_view(r) == placed(*overridden, *xdg, *home, under_home@, name@),
{
    match overridden {
        Some(f) => Some(f.clone()),
        None => match xdg {
            Some(x) => Some(join_path(x.as_str(), name)),
            None => match home {
                Some(h) => {
                    let mut base = h.clone();
                    base.append(under_home);
                    Some(join_path(base.as_str(), name))
                },
                None => None,
            },
        },
    }
}

/// The launcher's data folder: `LAUNCHER_FOLDER`, else `name` under
/// `XDG_DATA_HOME`, else under `$HOME/.local/share`; nothing without any of them.
pub fn data_folder(vars: &FolderVars, name: &str) -> (r: Option<String>)
    ensures
        crate::components::text_view(r) == placed(vars.launcher_folder, vars.xdg_data_home, vars.home, "/.local/share"@, name@),
{
    place(&vars.launcher_folder, &vars.xdg_data_home, &vars.home, "/.local/share", name)
}

/// The launcher's cache folder: `CACHE_FOLDER`, else `name` under
/// `XDG_CACHE_HOME`, else under `$HOME/.cache`; nothing without any of them.
pub fn cache_folder(vars: &FolderVars, name: &str) -> (r: Option<String>)
    ensures
        crate::components::text_view(r) == placed(vars.cache_folder, vars.xdg_cache_home, vars.home, "/.cache"@, name@),
{
    place(&vars.cache_folder, &vars.xdg_cache_home, &vars.home, "/.cache", name)
}

/// `config.json` in a launcher folder.
pub fn config_in(dir: &Option<String>) -> (r: Option<String>)
    ensures
        dir is None ==> r is None,
        dir is Some ==> r is Some && r.unwrap()@ == joined(dir.unwrap()@, "config.json"@),
{
    match dir {
        Some(d) => Some(join_path(d.as_str(), "config.json")),
        None => None,
    }
}

/// Where games are installed by default: the launcher folder, unless the
/// launcher runs under Steam and the C: drive of Steam's prefix is known.
pub fn base_install_dir(launcher_dir: String, from: LaunchedFrom, compat_drive: &Option<String>) -> (r: String)
    ensures
        from == LaunchedFrom::Steam && compat_drive is Some ==> r@ == compat_drive.unwrap()@,
        !(from == LaunchedFrom::Steam && compat_drive is Some) ==> r == launcher_dir,
{
    match from {
        LaunchedFrom::Independent => launcher_dir,
        LaunchedFrom::Steam => match compat_drive {
            Some(path) => path.clone(),
            None => launcher_dir,
        },
    }
}

} // verus!
