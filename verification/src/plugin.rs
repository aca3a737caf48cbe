//! The extension (plugin) capability interface and the metadata kept for
//! each installed extension.

use vstd::prelude::*;
use crate::models::Profile;

verus! {

/// Points in the host's control flow at which enabled extensions are
/// notified.
#[derive(Debug, Clone, Copy, PartialEq, Eq, Structural)]
pub enum Hook {
    /// Before establishing an SSH connection.
    PreConnect,
    /// After an SSH connection has been established.
    PostConnect,
    /// After an SSH connection has been closed.
    PostDisconnect,
    /// When a connection test succeeds.
    TestSuccess,
    /// When a connection test fails.
    TestFailure,
    /// When profile information is displayed.
    ProfileInfo,
    /// When a plugin is enabled.
    PluginEnabled,
    /// When a plugin is disabled.
    PluginDisabled,
}

/// Descriptor of a plugin: identity, version and provenance.
pub struct PluginInfo {
    /// Unique name of the plugin.
    pub name: String,
    /// Plugin version.
    pub version: String,
    /// Plugin description.
    pub description: String,
    /// Plugin author.
    pub author: String,
    /// Origin URL the plugin was installed from, if any.
    pub source_url: Option<String>,
}

impl Clone for PluginInfo {
    fn clone(&self) -> (r: Self)
        ensures
            r == *self,
    {
        PluginInfo {
            name: self.name.clone(),
            version: self.version.clone(),
            description: self.description.clone(),
            author: self.author.clone(),
            source_url: match &self.source_url {
                Some(u) => Some(u.clone()),
                None => None,
            },
        }
    }
}

/// A custom command offered by a plugin.
pub struct PluginCommand {
    /// Command name.
    pub name: String,
    /// Command description.
    pub description: String,
    /// Command usage example.
    pub usage: String,
}

impl Clone for PluginCommand {
    fn clone(&self) -> (r: Self)
        ensures
            r == *self,
    {
        PluginCommand {
            name: self.name.clone(),
            description: self.description.clone(),
            usage: self.usage.clone(),
        }
    }
}

/// Lifecycle status of an installed plugin.
#[derive(Debug, Clone, Copy, PartialEq, Eq, Structural)]
pub enum PluginStatus {
    /// Plugin is enabled and active.
    Enabled,
    /// Plugin is installed but disabled.
    Disabled,
}

/// The record the metadata store keeps for one installed plugin.
pub struct PluginMetadata {
    /// Plugin descriptor.
    pub info: PluginInfo,
    /// Plugin status.
    pub status: PluginStatus,
    /// Plugin installation path.
    pub path: String,
    /// Installation date, milliseconds since the epoch.
    pub installed_at: u64,
    /// Last update date, if the plugin was ever updated.
    pub updated_at: Option<u64>,
}

impl Clone for PluginMetadata {
    fn clone(&self) -> (r: Self)
        ensures
            r == *self,
    {
        PluginMetadata {
            info: self.info.clone(),
            status: self.status,
            path: self.path.clone(),
            installed_at: self.installed_at,
            updated_at: self.updated_at,
        }
    }
}

/// Does the command list offer a command of this name?
pub fn command_known(commands: &Vec<PluginCommand>, command: &str) -> (r: bool)
    ensures
        r == exists|i: int| 0 <= i < commands@.len() && (#[trigger] commands@[i]).name@ == command@,
{
    let mut i: usize = 0;
    while i < commands.len()
        invariant
            i <= commands@.len(),
            forall|j: int| 0 <= j < i ==> (#[trigger] commands@[j]).name@ != command@,
        decreases commands@.len() - i,
    {
        if crate::strutil::str_eq(commands[i].name.as_str(), command) {
            return true;
        }
        i += 1;
    }
    false
}

/// The capability interface every extension implements. The host never
/// controls the implementations; no contract is assumed of them, and any
/// error they return is isolated by the dispatcher.
pub trait Plugin {
    /// The plugin's self-reported descriptor.
    fn info(&self) -> PluginInfo;

    /// The custom commands the plugin offers.
    fn commands(&self) -> Vec<PluginCommand>;

    /// Notify the plugin of a hook.
    fn execute_hook(&self, hook: Hook, profile: Option<&Profile>) -> Result<(), String>;

    /// Run one of the plugin's custom commands.
    fn execute_command(&self, command: &str, args: &[String]) -> Result<(), String>;

    /// Called when the plugin is enabled.
    fn on_enable(&self) -> Result<(), String>;

    /// Called when the plugin is disabled.
    fn on_disable(&self) -> Result<(), String>;

    /// Called when the plugin is first installed.
    fn on_install(&self, plugin_dir: &str) -> Result<(), String>;

    /// Called when the plugin is updated.
    fn on_update(&self, plugin_dir: &str) -> Result<(), String>;
}

} // verus!
