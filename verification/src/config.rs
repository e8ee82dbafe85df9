//! The per-invocation configuration value and its verified updates.
//!
//! The configuration is read once per invocation from its on-disk store by
//! the surrounding application and passed in as a plain value; every
//! change to it is computed here and handed back for the application to
//! persist.

use vstd::prelude::*;

verus! {

/// Docker registry credentials and repository information.
#[derive(Debug, Clone, PartialEq, Eq)]
pub struct Registry {
    /// Name of the Docker repository.
    pub repo: String,
    /// Username for authentication.
    pub user: String,
    /// Access token or password.
    pub token: String,
}

/// The global configuration, read once per invocation.
#[derive(Debug, Clone, PartialEq, Eq)]
pub struct Config {
    /// Whether automatic update checks are enabled.
    pub auto_update: bool,
    /// Whether automatic new release checks are enabled.
    pub auto_release_check: bool,
    /// Whether version tracking is enabled.
    pub version_tracking: bool,
    /// Optional registry configuration for private images.
    pub registry: Option<Registry>,
    /// User identifier used for telemetry, generated randomly.
    pub user_id: String,
}

/// The default of the automatic release check: enabled.
pub fn default_enable_auto_update() -> (r: bool)
    ensures
        r == true,
{
    true
}

/// Relies on `uuid::Uuid::new_v4` and its `Display` impl: a freshly drawn
/// random identifier, rendered in the 36-character hyphenated form.
/// Nothing can be promised of the drawn value itself.
#[verifier::external_body]
fn fresh_user_id() -> (r: String)
    ensures
        r@.len() == 36,
{
    uuid::Uuid::new_v4().to_string()
}

impl Default for Config {
    /// A fresh configuration: auto-update off, release checks and version
    /// tracking on, no registry, and a newly drawn user identifier.
    fn default() -> (r: Config)
        ensures
            r.auto_update == false,
            r.auto_release_check == true,
            r.version_tracking == true,
            r.registry is None,
            r.user_id@.len() == 36,
    {
        Config {
            auto_update: false,
            auto_release_check: true,
            version_tracking: true,
            registry: None,
            user_id: fresh_user_id(),
        }
    }
}

/// Enables or disables automatic update checks; nothing else changes.
pub fn set_auto_update(cfg: &mut Config, value: bool)
    ensures
        final (cfg).auto_update == value,
        final (cfg).auto_release_check == old(cfg).auto_release_check,
        final (cfg).version_tracking == old(cfg).version_tracking,
        final (cfg).registry == old(cfg).registry,
        final (cfg).user_id == old(cfg).user_id,
{
    cfg.auto_update = value;
}

/// Enables or disables automatic new release checks; nothing else changes.
pub fn set_auto_release_check(cfg: &mut Config, value: bool)
    ensures
        final (cfg).auto_release_check == value,
        final (cfg).auto_update == old(cfg).auto_update,
        final (cfg).version_tracking == old(cfg).version_tracking,
        final (cfg).registry == old(cfg).registry,
        final (cfg).user_id == old(cfg).user_id,
{
    cfg.auto_release_check = value;
}

/// Enables or disables version tracking; nothing else changes.
pub fn set_version_tracking(cfg: &mut Config, value: bool)
    ensures
        final (cfg).version_tracking == value,
        final (cfg).auto_update == old(cfg).auto_update,
        final (cfg).auto_release_check == old(cfg).auto_release_check,
        final (cfg).registry == old(cfg).registry,
        final (cfg).user_id == old(cfg).user_id,
{
    cfg.version_tracking = value;
}

/// The user identifier for telemetry: the stored one if present, else a
/// freshly drawn one written back into the configuration (the caller
/// persists the configuration exactly when the stored one was empty).
pub fn ensure_user_id(cfg: &mut Config) -> (r: String)
    ensures
        old(cfg).user_id@.len() != 0 ==> *final (cfg) == *old(cfg) && r == old(cfg).user_id,
        old(cfg).user_id@.len() == 0 ==> final (cfg).user_id == r && r@.len() == 36
            && final (cfg).auto_update == old(cfg).auto_update && final (cfg).auto_release_check
            == old(cfg).auto_release_check && final (cfg).version_tracking == old(
            cfg,
        ).version_tracking && final (cfg).registry == old(cfg).registry,
{
    if cfg.user_id.as_str().unicode_len() == 0 {
        let id = fresh_user_id();
        cfg.user_id = id.clone();
        id
    } else {
        cfg.user_id.clone()
    }
}

} // verus!
