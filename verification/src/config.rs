//! Configuration.

use vstd::prelude::*;
use crate::applet::automount::{AutomountConfig, BackendConfig};
use crate::applet::autouser::AutouserConfig;
use crate::applet::tmcc::TmccConfig;
use crate::tmcc::TMCD_PORT;

verus! {

/// Systemd integration configuration.
#[derive(Debug, Clone)]
pub struct SystemdConfig {
    /// Path to the systemd unit directory
    pub unit_dir: String,
}

impl Default for SystemdConfig {
    fn default() -> (r: Self)
        ensures
            r.unit_dir@ == "/etc/systemd/system"@,
    {
        Self { unit_dir: "/etc/systemd/system".to_owned() }
    }
}

/// The configuration of the agent. It is fixed once the agent has started.
#[derive(Debug, Clone)]
pub struct ConfigInner {
    /// `autouser` applet configuration.
    pub autouser: AutouserConfig,
    /// `automount` applet configuration.
    pub automount: AutomountConfig,
    /// `tmcc` applet configuration.
    pub tmcc: TmccConfig,
    /// Systemd integration configuration.
    pub systemd: SystemdConfig,
}

impl Default for ConfigInner {
    fn default() -> (r: Self)
        ensures
            r.autouser.enable,
            r.autouser.admin_group is None,
            r.automount.enable,
            r.automount.backend == BackendConfig::Systemd,
            r.tmcc.boss is None,
            r.tmcc.port == TMCD_PORT,
            r.tmcc.report_shutdown,
            r.systemd.unit_dir@ == "/etc/systemd/system"@,
    {
        Self {
            autouser: AutouserConfig::default(),
            automount: AutomountConfig::default(),
            tmcc: TmccConfig::default(),
            systemd: SystemdConfig::default(),
        }
    }
}

} // verus!
