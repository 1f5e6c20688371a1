//! Folders of the launcher whose folder name an extension file can change.

use vstd::prelude::*;
use crate::paths::{join_path, joined};

verus! {

/// Name of the launcher's data folder.
pub const FOLDER_NAME: &'static str = "anime-game-launcher";

/// The launcher folder under the user's data folder; `suffix` is what the
/// `.configext` file beside the executable adds to the folder's name.
pub fn launcher_dir(data_dir: &Option<String>, suffix: &Option<String>) -> (r: Option<String>)
    ensures
        data_dir is None ==> r is None,
        data_dir is Some && suffix is None ==> r is Some && r.unwrap()@ == joined(data_dir.unwrap()@, FOLDER_NAME@),
        data_dir is Some && suffix is Some ==> r is Some && r.unwrap()@ == joined(data_dir.unwrap()@, FOLDER_NAME@ + suffix.unwrap()@),
{
    match data_dir {
        Some(d) => {
            let mut name = String::from_str(FOLDER_NAME);
            if let Some(s) = suffix {
                name.append(s.as_str());
            }
            Some(join_path(d.as_str(), name.as_str()))
        },
        None => None,
    }
}

/// `config.json` in the launcher folder.
pub fn config_file(launcher_dir: &Option<String>) -> (r: Option<String>)
    ensures
        launcher_dir is None ==> r is None,
        launcher_dir is Some ==> r is Some && r.unwrap()@ == joined(launcher_dir.unwrap()@, "config.json"@),
{
    crate::common::config_in(launcher_dir)
}

} // verus!
