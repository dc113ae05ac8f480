use vstd::prelude::*;

verus! {

/// A command line of the mod manager.
pub struct Cli {
    pub command: Commands,
}

/// The commands of the mod manager.
#[allow(inconsistent_fields)]
pub enum Commands {
    /// Initialize the configuration with a Minecraft version and a mod loader.
    Init { mc_version: String, loader: String },
    /// Set the configuration up by questions.
    Setup,
    /// Search a platform for mods.
    Search { query: String, source: Option<String> },
    /// Install mods by name.
    Install { mods: Vec<String>, mc_version: Option<String>, source: Option<String> },
    /// Check (and with `apply`, install) updates of the installed mods.
    Update { apply: bool },
    /// Remove installed mods.
    Remove { mods: Vec<String> },
    /// Enable disabled mods.
    Enable { mods: Vec<String> },
    /// Disable enabled mods.
    Disable { mods: Vec<String> },
    /// Download missing or damaged mod files again.
    Sync,
    /// Remove mods that nothing needs.
    Prune,
    /// Manage profiles.
    Profile { command: ProfileCommands },
    /// List the installed mods.
    List,
}

/// The profile commands.
pub enum ProfileCommands {
    List,
    Create { name: String },
    Switch { name: String },
    Add { mods: Vec<String> },
    Remove { mods: Vec<String> },
    Delete { name: String },
    Rename { old_name: String, new_name: String },
}

impl Commands {
    /// Whether the command needs a configured workspace (a Minecraft version and
    /// a mod loader): every command but the configuration commands and search.
    pub open spec fn spec_needs_initialized(&self) -> bool {
        !(self is Init || self is Setup || self is Search)
    }

    /// Whether the command needs a configured workspace.
    pub fn needs_initialized(&self) -> (r: bool)
        ensures
            r == self.spec_needs_initialized(),
    {
        match self {
            Commands::Init { .. } => false,
            Commands::Setup => false,
            Commands::Search { .. } => false,
            _ => true,
        }
    }
}

} // verus!
