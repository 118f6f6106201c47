//! Signal handler applet.

use vstd::prelude::*;
use crate::applet::{Message, ShutdownReason};

verus! {

/// The signals that the agent listens for.
#[derive(Debug, Clone, Copy, PartialEq, Eq, Structural)]
pub enum Signal {
    /// The request to terminate.
    Terminate,
    /// The interrupt from the terminal.
    Interrupt,
    /// The hangup.
    Hangup,
}

impl Signal {
    /// The message that the signal is broadcast as: a termination shuts
    /// the agent down and is reported, an interrupt shuts it down without a
    /// report, and a hangup reloads the testbed's information.
    pub fn message(self) -> (r: Message)
        ensures
            r == match self {
                Signal::Terminate => Message::Shutdown(ShutdownReason::Signal),
                Signal::Interrupt => Message::Shutdown(ShutdownReason::InteractiveSignal),
                Signal::Hangup => Message::ReloadTestbed,
            },
    {
        match self {
            Signal::Terminate => Message::Shutdown(ShutdownReason::Signal),
            Signal::Interrupt => Message::Shutdown(ShutdownReason::InteractiveSignal),
            Signal::Hangup => Message::ReloadTestbed,
        }
    }
}

} // verus!
