//! The parts of a level editor that decide, apart from what draws and stores.

pub mod document;
pub mod io;
pub mod reorderable_list;
pub mod tab_layout;

use vstd::prelude::*;
use vstd::string::StringExecFns;

verus! {

/// The settings of a game project.
#[derive(Debug)]
pub struct GameSettings {
    pub name: String,
    pub description: String,
}

impl Default for GameSettings {
    /// A project named `New Game` without a description.
    fn default() -> (settings: Self)
        ensures
            settings.name@ == "New Game"@,
            settings.description@ == Seq::<char>::empty(),
    {
        GameSettings { name: String::from_str("New Game"), description: String::new() }
    }
}

impl GameSettings {
    /// The file the settings are kept in.
    pub fn save_path(&self) -> (path: String)
        ensures
            path@ == "settings.ron"@,
    {
        String::from_str("settings.ron")
    }

    /// The name under which the settings are shown.
    pub fn name(&self) -> (name: &'static str)
        ensures
            name@ == "settings"@,
    {
        "settings"
    }
}

} // verus!
