//! The host side of the plugin sandbox. A plugin is untrusted code in a
//! virtual machine of its own; all it can ask of the host goes through the
//! functions of `exports`, and each of them checks what it is given.

use vstd::prelude::*;
use crate::paths::{bare_name, child_path, is_bare_name, join};

pub mod exports;

verus! {

/// A plugin as it is installed.
#[derive(Debug)]
pub struct PluginConfig {
    /// The plugin's name; also the name of its data folder.
    pub name: String,
}

/// What the host keeps for a running plugin.
#[derive(Debug)]
pub struct PluginEnv {
    /// The plugin's name.
    pub name: String,
    /// The folder that holds the plugin's files. It is the only place that
    /// the host writes to on the plugin's behalf.
    pub data_dir: String,
}

/// What the plugin manager can be told to do with the plugin of a name.
#[derive(Debug)]
pub enum PluginCommand {
    Start(String),
    Stop(String),
    Reload(String),
}

/// Asks for URLs to be queued.
#[derive(Debug)]
pub struct PluginEnqueueRequest {
    pub urls: Vec<String>,
}

/// Asks for a file of the host to be copied into the plugin's data folder.
#[derive(Debug)]
pub struct PluginMountRequest {
    /// The name that the copy is to have in the data folder.
    pub dst: String,
    /// The file to copy.
    pub src: String,
}

impl PluginConfig {
    /// The plugin's data folder: the entry under `plugin_root` that has the
    /// plugin's name. `None` where the name is no bare file name, for then
    /// the folder would not be the plugin's own.
    pub fn data_folder(&self, plugin_root: &str) -> (res: Option<String>)
        ensures
            res is Some <==> is_bare_name(self.name@),
            res matches Some(dir) ==> dir@ == child_path(plugin_root@, self.name@),
    {
        if bare_name(self.name.as_str()) {
            Some(join(plugin_root, self.name.as_str()))
        } else {
            None
        }
    }
}

impl PluginEnv {
    /// What the host keeps for the plugin `plugin`, whose data folder lies
    /// under `plugin_root`. `None` where the plugin's name is no bare file
    /// name.
    pub fn new(plugin: &PluginConfig, plugin_root: &str) -> (res: Option<Self>)
        ensures
            res is Some <==> is_bare_name(plugin.name@),
            res matches Some(env) ==> env.name@ == plugin.name@ && env.data_dir@ == child_path(
                plugin_root@,
                plugin.name@,
            ),
    {
        match plugin.data_folder(plugin_root) {
            Some(data_dir) => Some(PluginEnv { name: plugin.name.clone(), data_dir }),
            None => None,
        }
    }
}

} // verus!
