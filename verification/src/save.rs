//! Saving the live state of a workspace in its written form.

use vstd::prelude::*;
use crate::config::{guild_config_of, GuildConfig};
use crate::guild::ExistingGuild;

verus! {

/// The saving of a live workspace to a file. What is written is decided here; the
/// file itself, and the question whether to overwrite it, are for whoever saves.
#[derive(Debug, PartialEq)]
pub struct SaveExistingGuild {
    /// Whether a file that exists already is overwritten without asking.
    pub force: bool,
}

impl SaveExistingGuild {
    pub fn new(force: bool) -> (save: Self)
        ensures
            save.force == force,
    {
        SaveExistingGuild { force }
    }

    /// Whether leave to write the file must be asked for: only where the file exists
    /// already and the saving is not forced.
    pub fn needs_confirmation(&self, file_exists: bool) -> (needed: bool)
        ensures
            needed == (!self.force && file_exists),
    {
        !self.force && file_exists
    }

    /// What is written for a live workspace.
    pub fn config(&self, guild: &ExistingGuild) -> (config: GuildConfig)
        ensures
            config@ == guild_config_of(guild@),
    {
        GuildConfig::from(guild)
    }
}

} // verus!
