//! The `tmcc` applet.
//!
//! This applet talks to the Testbed Management Control Daemon (TMCD): it
//! reports the node's state, fetches what the testbed wants the node to
//! be, and hands that to the other applets.

use vstd::prelude::*;
use crate::applet::{Message, ShutdownReason};
use crate::error::{Error, ErrorView};
use crate::geni::{node_index, Ipv4, NodeView, RSpec};
use crate::tmcc::{AllocationStatus, BossNode, BossNodeView, State, TMCD_PORT};

verus! {

/// `tmcc` applet configuration.
#[derive(Debug, Clone)]
pub struct TmccConfig {
    /// The boss node.
    ///
    /// By default this will be automatically discovered.
    pub boss: Option<String>,
    /// The TMCD port.
    pub port: u16,
    /// Whether to report shutdowns to the testbed.
    pub report_shutdown: bool,
}

impl Default for TmccConfig {
    fn default() -> (r: Self)
        ensures
            r.boss is None,
            r.port == TMCD_PORT,
            r.report_shutdown,
    {
        Self { boss: None, port: TMCD_PORT, report_shutdown: true }
    }
}

impl TmccConfig {
    /// The boss node that the configuration names, at the configured port.
    /// `None` where it names none, and the boss node is to be discovered.
    pub fn boss_node(&self) -> (r: Option<BossNode>)
        ensures
            match self.boss {
                Some(host) => r matches Some(boss) && boss@ == (BossNodeView {
                    host: host@,
                    port: self.port,
                }),
                None => r is None,
            },
    {
        match &self.boss {
            Some(host) => Some(BossNode::HostPort((host.clone(), self.port))),
            None => None,
        }
    }
}

/// What the applet does on a message.
#[derive(Debug, Clone, Copy, PartialEq, Eq, Structural)]
pub enum Action {
    /// Nothing.
    Ignore,
    /// Fetch accounts, mounts and the allocation from the testbed, and
    /// publish them.
    Reload,
    /// Report to the testbed that the node is up. Once the report has
    /// succeeded, [`Tmcc::announced`] records it.
    AnnounceReady,
    /// End the applet; where `report` holds, first report to the testbed
    /// that the node shuts down, and ignore a failure to do so.
    Stop { report: bool },
}

/// The `tmcc` applet, as far as it decides: whether the testbed has been
/// told that the node is up.
#[derive(Debug)]
pub struct Tmcc {
    account_initialized: bool,
}

impl View for Tmcc {
    type V = bool;

    /// Whether the testbed has been told that the node is up.
    closed spec fn view(&self) -> bool {
        self.account_initialized
    }
}

/// What the applet does on a message.
///
/// - A reload request is carried out.
/// - The first acknowledgement of an account update is answered by
///   telling the testbed that the node is up; later ones by nothing.
/// - A shutdown ends the applet; it is reported where a signal other than
///   an interactive one asked for it and the configuration says so.
/// - Anything else is ignored.
pub open spec fn action_for(announced: bool, message: Message, report_shutdown: bool) -> Action {
    match message {
        Message::Shutdown(reason) => Action::Stop {
            report: reason == ShutdownReason::Signal && report_shutdown,
        },
        Message::UpdateAccountsOk => if announced {
            Action::Ignore
        } else {
            Action::AnnounceReady
        },
        Message::ReloadTestbed => Action::Reload,
        _ => Action::Ignore,
    }
}

impl Tmcc {
    /// The applet at the start of the process: the testbed has not been
    /// told yet that the node is up.
    pub fn new() -> (r: Self)
        ensures
            !r@,
    {
        Self { account_initialized: false }
    }

    /// The state that the applet reports when its main routine starts,
    /// before it asks for the first reload.
    pub fn startup_state() -> (r: State)
        ensures
            r == State::Setup,
    {
        State::Setup
    }

    /// The message that the applet publishes once the startup state is
    /// reported.
    pub fn startup_message() -> (r: Message)
        ensures
            r == Message::ReloadTestbed,
    {
        Message::ReloadTestbed
    }

    /// Decides what to do on a message.
    pub fn on_message(&self, message: &Message, config: &TmccConfig) -> (r: Action)
        ensures
            r == action_for(self@, *message, config.report_shutdown),
    {
        match message {
            Message::Shutdown(reason) => {
                let signal = match reason {
                    ShutdownReason::Signal => true,
                    ShutdownReason::InteractiveSignal => false,
                };
                Action::Stop { report: signal && config.report_shutdown }
            },
            Message::UpdateAccountsOk => {
                if self.account_initialized {
                    Action::Ignore
                } else {
                    Action::AnnounceReady
                }
            },
            Message::ReloadTestbed => Action::Reload,
            _ => Action::Ignore,
        }
    }

    /// Records that the testbed has been told that the node is up.
    pub fn announced(&mut self)
        ensures
            final(self)@,
    {
        self.account_initialized = true;
    }
}

/// The state that is reported for an action: that the node is up when it
/// is announced ready, and that it shuts down when a stop is reported.
pub fn state_for(action: Action) -> (r: Option<State>)
    ensures
        r == match action {
            Action::AnnounceReady => Some(State::Up),
            Action::Stop { report: true } => Some(State::Shutdown),
            _ => None,
        },
{
    match action {
        Action::AnnounceReady => Some(State::Up),
        Action::Stop { report } => if report {
            Some(State::Shutdown)
        } else {
            None
        },
        _ => None,
    }
}

/// The canonical name and address of the node: those of the node of the
/// manifest that bears the nickname of the allocation.
pub open spec fn canonical_of(manifest: Seq<NodeView>, nickname: Seq<char>) -> Result<
    (Seq<char>, Ipv4),
    ErrorView,
> {
    match node_index(manifest, nickname) {
        Some(i) => Ok((manifest[i].fqdn, manifest[i].ipv4)),
        None => Err(ErrorView::GeniNoSuchNode),
    }
}

/// The message that updates the canonical name and address of the node,
/// from the manifest and the allocation. Fails with `GeniNoSuchNode` where
/// the manifest has no node with the nickname of the allocation.
pub fn update_canonical(manifest: &RSpec, allocation: &AllocationStatus) -> (r: Result<
    Message,
    Error,
>)
    ensures
        match canonical_of(manifest@, allocation.node_name@) {
            Ok((fqdn, ipv4)) => r matches Ok(Message::UpdateCanonical(name, address)) && name@
                == fqdn && address == ipv4,
            Err(e) => r matches Err(error) && error@ == e,
        },
{
    match manifest.get_node(allocation.node_name.as_str()) {
        Some(node) => Ok(Message::UpdateCanonical(node.fqdn(), node.ipv4())),
        None => Err(Error::GeniNoSuchNode),
    }
}

} // verus!
