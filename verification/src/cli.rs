//! The command surface as plain data, and the dispatch of configuration
//! actions.
//!
//! The surrounding application parses the process arguments into these
//! types; the decision of what each configuration action changes is taken
//! here.

use vstd::prelude::*;
use crate::config::{
    Config,
    set_auto_update,
    set_auto_release_check,
    set_version_tracking,
};

verus! {

/// The parsed command line.
#[derive(Debug, PartialEq, Eq)]
pub struct Cli {
    pub command: Command,
}

/// One invocation's command.
#[derive(Debug, PartialEq, Eq)]
pub enum Command {
    /// Define the default (user-scope) version.
    Use { version: String },
    /// Define the directory (project-scope) version.
    Pin { version: String },
    /// Run the workload with the resolved version.
    Run { args: Vec<String> },
    /// List downloaded images.
    List { prefix: Option<String> },
    /// List available images upstream.
    Available { prefix: Option<String> },
    /// Change the configuration.
    Config { action: ConfigAction },
}

/// One configuration switch.
#[derive(Debug, Clone, Copy, PartialEq, Eq, Structural)]
pub enum ConfigAction {
    /// Activate auto update for stable/testing versions.
    EnableAutoUpdate,
    /// Deactivate auto update for stable/testing versions (default).
    DisableAutoUpdate,
    /// Enable the check for new releases of the tool itself.
    EnableUpdateCheck,
    /// Disable the check for new releases of the tool itself.
    DisableUpdateCheck,
    /// Enable version usage tracking (default).
    EnableUsageTracking,
    /// Disable version usage tracking.
    DisableUsageTracking,
}

/// The configuration field an action touches, and the value it sets.
pub open spec fn spec_action_applied(action: ConfigAction, old_cfg: Config, new_cfg: Config) -> bool {
    &&& new_cfg.auto_update == (match action {
        ConfigAction::EnableAutoUpdate => true,
        ConfigAction::DisableAutoUpdate => false,
        _ => old_cfg.auto_update,
    })
    &&& new_cfg.auto_release_check == (match action {
        ConfigAction::EnableUpdateCheck => true,
        ConfigAction::DisableUpdateCheck => false,
        _ => old_cfg.auto_release_check,
    })
    &&& new_cfg.version_tracking == (match action {
        ConfigAction::EnableUsageTracking => true,
        ConfigAction::DisableUsageTracking => false,
        _ => old_cfg.version_tracking,
    })
    &&& new_cfg.registry == old_cfg.registry
    &&& new_cfg.user_id == old_cfg.user_id
}

/// Applies one configuration action: exactly the addressed flag changes.
pub fn apply_config_action(cfg: &mut Config, action: ConfigAction)
    ensures
        spec_action_applied(action, *old(cfg), *final (cfg)),
{
    match action {
        ConfigAction::EnableAutoUpdate => set_auto_update(cfg, true),
        ConfigAction::DisableAutoUpdate => set_auto_update(cfg, false),
        ConfigAction::EnableUpdateCheck => set_auto_release_check(cfg, true),
        ConfigAction::DisableUpdateCheck => set_auto_release_check(cfg, false),
        ConfigAction::EnableUsageTracking => set_version_tracking(cfg, true),
        ConfigAction::DisableUsageTracking => set_version_tracking(cfg, false),
    }
}

} // verus!
