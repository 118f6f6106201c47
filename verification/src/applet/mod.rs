//! Applet framework.
//!
//! As a single-binary daemon, the agent implements distinct features as
//! applets. Applets run concurrently and communicate with each other via a
//! shared bus, sending typed values.
//!
//! ```text
//! [tmcc] -- [autouser]
//!     \---- [automount]
//! ```
//!
//! In the above example, the `tmcc` applet may request account information
//! from the testbed and then send a `Message::UpdateAccounts` message
//! through the channel.
//!
//! This module holds the messages and what each applet decides on them;
//! the channel and the tasks are the program's.

pub mod automount;
pub mod autouser;
pub mod signal;
pub mod tmcc;

use vstd::prelude::*;
use crate::account::Accounts;
use crate::error::Error;
use crate::geni::Ipv4;
use crate::mount::NfsMount;

verus! {

/// How many messages the bus holds for a subscriber that lags behind.
pub const CHANNEL_CAPACITY: usize = 100;

/// A shutdown reason.
///
/// Depending on the reason, we may or may not inform the testbed before we
/// exit.
#[derive(Debug, Clone, Copy, PartialEq, Eq, Structural)]
pub enum ShutdownReason {
    /// Received a non-interactive terminating signal.
    ///
    /// We will report to the testbed that we are shutting down.
    Signal,
    /// Received an interactive terminating signal (e.g., Ctrl-C).
    InteractiveSignal,
}

/// A message.
#[derive(Debug, Clone)]
pub enum Message {
    /// Shut down the daemon.
    Shutdown(ShutdownReason),
    /// Update accounts on the system.
    UpdateAccounts(Accounts),
    /// Account update was successful.
    UpdateAccountsOk,
    /// Update NFS mounts on the system.
    UpdateMounts(Vec<NfsMount>),
    /// Mount update was successful.
    UpdateMountsOk,
    /// Update FQDN and its associated IP of the system.
    UpdateCanonical(String, Ipv4),
    /// Reload information from the testbed.
    ReloadTestbed,
}

/// What becomes of an applet whose main routine has returned.
#[derive(Debug, Clone, Copy, PartialEq, Eq, Structural)]
pub enum Supervision {
    /// The routine is run again.
    Respawn,
    /// The applet has ended, and is not run again.
    Finish,
}

/// Decides what becomes of an applet whose main routine has returned: it
/// is run again, unconditionally, where the routine failed, and it ends
/// where the routine succeeded.
pub fn run_applet(exit: &Result<(), Error>) -> (r: Supervision)
    ensures
        r == match *exit {
            Ok(_) => Supervision::Finish,
            Err(_) => Supervision::Respawn,
        },
{
    match exit {
        Ok(_) => Supervision::Finish,
        Err(_) => Supervision::Respawn,
    }
}

} // verus!
