//! `au plugins`: listing, installing and removing plugins.
//!
//! A command runs as a sequence of steps. `run` gives the first; the program
//! around this library performs each step on disk and hands its outcome to the
//! function that the step names, which gives the next step, until `Done` or
//! `Fail`. A plugin is copied only after its source was found to hold a
//! `plugin.json` that loads and its destination was found absent; a directory
//! is removed only after it was found to exist and to hold a `plugin.json`.

use vstd::prelude::*;

use crate::plugin_runtime::host_api::{join_path, joined};

verus! {

/// The `au plugins` subcommands.
#[derive(Debug, Clone)]
pub enum PluginsCommand {
    /// List all installed plugins.
    List,
    /// Install a plugin from a local directory.
    Add { path: String },
    /// Remove an installed plugin by id.
    Remove { id: String },
}

/// Why a plugins command failed.
#[derive(Debug, Clone)]
pub enum PluginsError {
    /// Setting up the plugins directory failed.
    Setup { detail: String },
    /// The source path does not exist.
    PathNotFound { path: String },
    /// The source directory has no `plugin.json`.
    NoManifest { dir: String },
    /// The source directory does not hold a loadable plugin.
    InvalidPlugin { dir: String, detail: String },
    /// A plugin of this id is installed already.
    AlreadyInstalled { id: String },
    /// Copying the plugin failed.
    CopyFailed { detail: String },
    /// No plugin of this id is installed.
    NotInstalled { id: String },
    /// The directory to remove holds no `plugin.json`.
    NotAPluginDirectory { dir: String },
    /// Removing the directory failed.
    RemoveFailed { id: String, detail: String },
}

impl PluginsError {
    /// The message that reports the failure.
    pub open spec fn spec_message(self) -> Seq<char> {
        match self {
            PluginsError::Setup { detail } => detail@,
            PluginsError::PathNotFound { path } => "path not found: "@ + path@,
            PluginsError::NoManifest { dir } => "no plugin.json found in "@ + dir@,
            PluginsError::InvalidPlugin { dir, .. } => "invalid plugin at "@ + dir@,
            PluginsError::AlreadyInstalled { id } => "plugin '"@ + id@
                + "' is already installed. Remove it first with `au plugins remove "@ + id@
                + "`"@,
            PluginsError::CopyFailed { detail } => detail@,
            PluginsError::NotInstalled { id } => "plugin '"@ + id@ + "' is not installed"@,
            PluginsError::NotAPluginDirectory { dir } => "'"@ + dir@
                + "' does not appear to be a plugin directory"@,
            PluginsError::RemoveFailed { id, .. } => "could not remove plugin '"@ + id@ + "'"@,
        }
    }

    pub fn message(&self) -> (r: String)
        ensures
            r@ == self.spec_message(),
    {
        match self {
            PluginsError::Setup { detail } => detail.clone(),
            PluginsError::PathNotFound { path } => {
                let mut r = String::from_str("path not found: ");
                r.append(path.as_str());
                r
            },
            PluginsError::NoManifest { dir } => {
                let mut r = String::from_str("no plugin.json found in ");
                r.append(dir.as_str());
                r
            },
            PluginsError::InvalidPlugin { dir, .. } => {
                let mut r = String::from_str("invalid plugin at ");
                r.append(dir.as_str());
                r
            },
            PluginsError::AlreadyInstalled { id } => {
                let mut r = String::from_str("plugin '");
                r.append(id.as_str());
                r.append("' is already installed. Remove it first with `au plugins remove ");
                r.append(id.as_str());
                r.append("`");
                r
            },
            PluginsError::CopyFailed { detail } => detail.clone(),
            PluginsError::NotInstalled { id } => {
                let mut r = String::from_str("plugin '");
                r.append(id.as_str());
                r.append("' is not installed");
                r
            },
            PluginsError::NotAPluginDirectory { dir } => {
                let mut r = String::from_str("'");
                r.append(dir.as_str());
                r.append("' does not appear to be a plugin directory");
                r
            },
            PluginsError::RemoveFailed { id, .. } => {
                let mut r = String::from_str("could not remove plugin '");
                r.append(id.as_str());
                r.append("'");
                r
            },
        }
    }
}

/// What a finished command reports.
#[derive(Debug, Clone)]
pub enum PluginsReport {
    Installed { name: String, id: String },
    Removed { id: String },
}

/// The next step of a plugins command.
#[derive(Debug, Clone)]
pub enum PluginsStep {
    /// Install the bundled plugins, then call `after_setup`.
    InstallBundled { command: PluginsCommand },
    /// List the installed plugins; the command ends there.
    ShowInstalled,
    /// Resolve `path` to an absolute directory, then call `after_resolve`.
    ResolveSource { path: String },
    /// Look whether `manifest` exists, then call `after_source_check`.
    CheckSourceManifest { source: String, manifest: String },
    /// Load the plugin in `source`, then call `after_load`.
    LoadSource { source: String },
    /// Find the user's plugins directory, then call `after_locate_for_add`.
    LocateForAdd { source: String, id: String, name: String },
    /// Look whether `destination` exists, then call `after_destination_check`.
    CheckDestination { source: String, id: String, name: String, destination: String },
    /// Copy `source` to `destination`, then call `after_copy`.
    CopyPlugin { source: String, destination: String, id: String, name: String },
    /// Find the user's plugins directory, then call `after_locate_for_remove`.
    LocateForRemove { id: String },
    /// Look whether `target` exists, then call `after_target_check`.
    CheckTarget { id: String, target: String },
    /// Look whether `manifest` exists, then call `after_target_manifest_check`.
    CheckTargetManifest { id: String, target: String, manifest: String },
    /// Remove the directory `target`, then call `after_remove`.
    RemoveTarget { id: String, target: String },
    /// The command succeeded.
    Done(PluginsReport),
    /// The command failed.
    Fail(PluginsError),
}

/// The first step of any plugins command: install the bundled plugins.
pub fn run(command: PluginsCommand) -> (r: PluginsStep)
    ensures
        r == (PluginsStep::InstallBundled { command }),
{
    PluginsStep::InstallBundled { command }
}

/// After the bundled plugins: list, resolve the source to add, or find the
/// plugins directory to remove from.
pub fn after_setup(command: PluginsCommand, setup: Result<(), String>) -> (r: PluginsStep)
    ensures
        match setup {
            Err(d) => r matches PluginsStep::Fail(PluginsError::Setup { detail }) && detail@ == d@,
            Ok(_) => match command {
                PluginsCommand::List => r is ShowInstalled,
                PluginsCommand::Add { path } => r matches PluginsStep::ResolveSource { path: p }
                    && p@ == path@,
                PluginsCommand::Remove { id } => r matches PluginsStep::LocateForRemove { id: i }
                    && i@ == id@,
            },
        },
{
    match setup {
        Err(detail) => PluginsStep::Fail(PluginsError::Setup { detail }),
        Ok(_) => match command {
            PluginsCommand::List => PluginsStep::ShowInstalled,
            PluginsCommand::Add { path } => PluginsStep::ResolveSource { path },
            PluginsCommand::Remove { id } => PluginsStep::LocateForRemove { id },
        },
    }
}

/// After resolving the source: look for its `plugin.json`.
pub fn after_resolve(path: String, resolved: Option<String>, windows: bool) -> (r: PluginsStep)
    ensures
        match resolved {
            Some(dir) => r matches PluginsStep::CheckSourceManifest { source, manifest }
                && source@ == dir@ && manifest@ == joined(dir@, "plugin.json"@, windows),
            None => r matches PluginsStep::Fail(PluginsError::PathNotFound { path: p })
                && p@ == path@,
        },
{
    match resolved {
        Some(source) => {
            let manifest = join_path(source.as_str(), "plugin.json", windows);
            PluginsStep::CheckSourceManifest { source, manifest }
        },
        None => PluginsStep::Fail(PluginsError::PathNotFound { path }),
    }
}

/// After looking for the source's `plugin.json`: load the plugin, or fail.
pub fn after_source_check(source: String, manifest_present: bool) -> (r: PluginsStep)
    ensures
        if manifest_present {
            r matches PluginsStep::LoadSource { source: s } && s@ == source@
        } else {
            r matches PluginsStep::Fail(PluginsError::NoManifest { dir }) && dir@ == source@
        },
{
    if manifest_present {
        PluginsStep::LoadSource { source }
    } else {
        PluginsStep::Fail(PluginsError::NoManifest { dir: source })
    }
}

/// After loading the source plugin (its id and name): find the plugins
/// directory.
pub fn after_load(source: String, loaded: Result<(String, String), String>) -> (r: PluginsStep)
    ensures
        match loaded {
            Ok((id, name)) => r matches PluginsStep::LocateForAdd { source: s, id: i, name: n }
                && s@ == source@ && i@ == id@ && n@ == name@,
            Err(d) => r matches PluginsStep::Fail(PluginsError::InvalidPlugin { dir, detail })
                && dir@ == source@ && detail@ == d@,
        },
{
    match loaded {
        Ok((id, name)) => PluginsStep::LocateForAdd { source, id, name },
        Err(detail) => PluginsStep::Fail(PluginsError::InvalidPlugin { dir: source, detail }),
    }
}

/// After finding the plugins directory: look whether the plugin is installed.
pub fn after_locate_for_add(
    source: String,
    id: String,
    name: String,
    plugins_dir: Result<String, String>,
    windows: bool,
) -> (r: PluginsStep)
    ensures
        match plugins_dir {
            Ok(dir) => r matches PluginsStep::CheckDestination {
                source: s,
                id: i,
                name: n,
                destination,
            } && s@ == source@ && i@ == id@ && n@ == name@ && destination@ == joined(dir@, id@, windows),
            Err(d) => r matches PluginsStep::Fail(PluginsError::Setup { detail }) && detail@ == d@,
        },
{
    match plugins_dir {
        Ok(dir) => {
            let destination = join_path(dir.as_str(), id.as_str(), windows);
            PluginsStep::CheckDestination { source, id, name, destination }
        },
        Err(detail) => PluginsStep::Fail(PluginsError::Setup { detail }),
    }
}

/// After looking at the destination: copy where it is free; an installed
/// plugin is never overwritten.
pub fn after_destination_check(
    source: String,
    id: String,
    name: String,
    destination: String,
    found: bool,
) -> (r: PluginsStep)
    ensures
        if found {
            r matches PluginsStep::Fail(PluginsError::AlreadyInstalled { id: i }) && i@ == id@
        } else {
            r matches PluginsStep::CopyPlugin { source: s, destination: d, id: i, name: n }
                && s@ == source@ && d@ == destination@ && i@ == id@ && n@ == name@
        },
{
    if found {
        PluginsStep::Fail(PluginsError::AlreadyInstalled { id })
    } else {
        PluginsStep::CopyPlugin { source, destination, id, name }
    }
}

/// After copying: report the installed plugin.
pub fn after_copy(id: String, name: String, copied: Result<(), String>) -> (r: PluginsStep)
    ensures
        match copied {
            Ok(_) => r matches PluginsStep::Done(PluginsReport::Installed { name: n, id: i })
                && n@ == name@ && i@ == id@,
            Err(d) => r matches PluginsStep::Fail(PluginsError::CopyFailed { detail })
                && detail@ == d@,
        },
{
    match copied {
        Ok(_) => PluginsStep::Done(PluginsReport::Installed { name, id }),
        Err(detail) => PluginsStep::Fail(PluginsError::CopyFailed { detail }),
    }
}

/// After finding the plugins directory: look whether the plugin is installed.
pub fn after_locate_for_remove(id: String, plugins_dir: Result<String, String>, windows: bool) -> (r:
    PluginsStep)
    ensures
        match plugins_dir {
            Ok(dir) => r matches PluginsStep::CheckTarget { id: i, target } && i@ == id@
                && target@ == joined(dir@, id@, windows),
            Err(d) => r matches PluginsStep::Fail(PluginsError::Setup { detail }) && detail@ == d@,
        },
{
    match plugins_dir {
        Ok(dir) => {
            let target = join_path(dir.as_str(), id.as_str(), windows);
            PluginsStep::CheckTarget { id, target }
        },
        Err(detail) => PluginsStep::Fail(PluginsError::Setup { detail }),
    }
}

/// After looking at the target: check that it is a plugin directory.
pub fn after_target_check(id: String, target: String, found: bool, windows: bool) -> (r: PluginsStep)
    ensures
        if found {
            r matches PluginsStep::CheckTargetManifest { id: i, target: t, manifest }
                && i@ == id@ && t@ == target@ && manifest@ == joined(target@, "plugin.json"@, windows)
        } else {
            r matches PluginsStep::Fail(PluginsError::NotInstalled { id: i }) && i@ == id@
        },
{
    if found {
        let manifest = join_path(target.as_str(), "plugin.json", windows);
        PluginsStep::CheckTargetManifest { id, target, manifest }
    } else {
        PluginsStep::Fail(PluginsError::NotInstalled { id })
    }
}

/// After looking for the target's `plugin.json`: remove it only where it is
/// there.
pub fn after_target_manifest_check(id: String, target: String, manifest_present: bool) -> (r:
    PluginsStep)
    ensures
        if manifest_present {
            r matches PluginsStep::RemoveTarget { id: i, target: t } && i@ == id@ && t@ == target@
        } else {
            r matches PluginsStep::Fail(PluginsError::NotAPluginDirectory { dir }) && dir@ == target@
        },
{
    if manifest_present {
        PluginsStep::RemoveTarget { id, target }
    } else {
        PluginsStep::Fail(PluginsError::NotAPluginDirectory { dir: target })
    }
}

/// After removing: report the removed plugin.
pub fn after_remove(id: String, removed: Result<(), String>) -> (r: PluginsStep)
    ensures
        match removed {
            Ok(_) => r matches PluginsStep::Done(PluginsReport::Removed { id: i }) && i@ == id@,
            Err(d) => r matches PluginsStep::Fail(PluginsError::RemoveFailed { id: i, detail })
                && i@ == id@ && detail@ == d@,
        },
{
    match removed {
        Ok(_) => PluginsStep::Done(PluginsReport::Removed { id }),
        Err(detail) => PluginsStep::Fail(PluginsError::RemoveFailed { id, detail }),
    }
}

} // verus!
