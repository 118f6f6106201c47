//! The `automount` applet.
//!
//! It mounts NFS shares configured in the experiment profile.

use vstd::prelude::*;
use crate::text::views;

verus! {

/// The backend to use for mounting.
#[derive(Debug, Clone, Copy, PartialEq, Eq, Structural)]
pub enum BackendConfig {
    /// Use systemd for mounting.
    Systemd,
}

/// `automount` applet configuration.
#[derive(Debug, Clone)]
pub struct AutomountConfig {
    /// Whether to enable the applet or not.
    pub enable: bool,
    /// The backend to use for mounting.
    pub backend: BackendConfig,
}

impl Default for AutomountConfig {
    fn default() -> (r: Self)
        ensures
            r.enable,
            r.backend == BackendConfig::Systemd,
    {
        Self { enable: true, backend: BackendConfig::Systemd }
    }
}

impl AutomountConfig {
    /// The tools that must be on the search path: the unit manager's,
    /// where it is the backend.
    pub fn required_commands(&self) -> (r: Vec<String>)
        ensures
            views(r@) == match self.backend {
                BackendConfig::Systemd => seq!["systemctl"@],
            },
    {
        let mut commands: Vec<String> = Vec::new();
        match self.backend {
            BackendConfig::Systemd => {
                commands.push("systemctl".to_owned());
            },
        }
        assert(views(commands@) =~= seq!["systemctl"@]);
        commands
    }
}

} // verus!
