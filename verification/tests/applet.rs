use miniond::account::Accounts;
use miniond::applet::automount::{AutomountConfig, BackendConfig};
use miniond::applet::autouser::{
    check_requirements, missing_commands, requirements_met, AutouserConfig,
};
use miniond::applet::signal::Signal;
use miniond::applet::tmcc::{state_for, Action, Tmcc, TmccConfig};
use miniond::applet::{run_applet, Message, ShutdownReason, Supervision, CHANNEL_CAPACITY};
use miniond::config::{ConfigInner, SystemdConfig};
use miniond::error::Error;
use miniond::geni::Ipv4;
use miniond::tmcc::{BossNode, Command, State};

#[test]
fn defaults() {
    let c = ConfigInner::default();
    assert!(c.autouser.enable);
    assert_eq!(c.autouser.admin_group, None);
    assert!(c.automount.enable);
    assert_eq!(c.automount.backend, BackendConfig::Systemd);
    assert_eq!(c.tmcc.boss, None);
    assert_eq!(c.tmcc.port, 7777);
    assert!(c.tmcc.report_shutdown);
    assert_eq!(c.systemd.unit_dir, "/etc/systemd/system");
    assert_eq!(SystemdConfig::default().unit_dir, "/etc/systemd/system");
    assert!(AutouserConfig::default().enable);
    assert!(AutomountConfig::default().enable);
    assert_eq!(CHANNEL_CAPACITY, 100);
}

#[test]
fn configured_boss_node_uses_the_configured_port() {
    let mut c = TmccConfig::default();
    assert!(c.boss_node().is_none());
    c.boss = Some("boss.emulab.net".to_string());
    c.port = 7778;
    let BossNode::HostPort(host_port) = c.boss_node().unwrap();
    assert_eq!(host_port, ("boss.emulab.net".to_string(), 7778));
}

#[test]
fn signals_become_messages() {
    assert!(matches!(Signal::Terminate.message(), Message::Shutdown(ShutdownReason::Signal)));
    assert!(matches!(Signal::Interrupt.message(), Message::Shutdown(ShutdownReason::InteractiveSignal)));
    assert!(matches!(Signal::Hangup.message(), Message::ReloadTestbed));
}

#[test]
fn failed_applets_are_respawned() {
    assert_eq!(run_applet(&Ok(())), Supervision::Finish);
    assert_eq!(run_applet(&Err(Error::UserCreation)), Supervision::Respawn);
    assert_eq!(run_applet(&Err(Error::IoError { error: "broken pipe".to_string() })), Supervision::Respawn);
}

fn frame(state: State) -> Vec<u8> {
    Command::new("state").arg(state.as_ref()).finalize()
}

#[test]
fn boot_handshake_scenario() {
    let config = TmccConfig::default();
    let mut applet = Tmcc::new();
    let mut sent: Vec<Vec<u8>> = vec![frame(Tmcc::startup_state())];
    let mut bus = vec![Tmcc::startup_message()];
    bus.push(Message::UpdateAccounts(Accounts::new()));
    bus.push(Message::UpdateMounts(vec![]));
    bus.push(Message::UpdateCanonical("node0.emulab.net".to_string(), Ipv4 { a: 10, b: 0, c: 0, d: 1 }));
    bus.push(Message::UpdateAccountsOk);
    bus.push(Message::UpdateMountsOk);
    bus.push(Message::UpdateAccountsOk);
    bus.push(Message::ReloadTestbed);
    bus.push(Message::UpdateAccountsOk);
    let mut reloads = 0;
    for message in &bus {
        let action = applet.on_message(message, &config);
        match action {
            Action::Reload => {
                reloads += 1;
                for command in ["accounts", "mounts", "status"] {
                    sent.push(Command::new(command).finalize());
                }
            }
            Action::AnnounceReady => {
                sent.push(frame(state_for(action).unwrap()));
                applet.announced();
            }
            Action::Ignore => assert_eq!(state_for(action), None),
            Action::Stop { .. } => panic!("not stopped"),
        }
    }
    assert_eq!(reloads, 2);
    assert_eq!(sent[0], b"VERSION=44 state MFSSETUP ".to_vec());
    assert_eq!(sent[1], b"VERSION=44 accounts ".to_vec());
    assert_eq!(sent[2], b"VERSION=44 mounts ".to_vec());
    assert_eq!(sent[3], b"VERSION=44 status ".to_vec());
    assert_eq!(sent.iter().filter(|f| f.as_slice() == b"VERSION=44 state ISUP ").count(), 1);
}

#[test]
fn ready_is_announced_again_until_the_report_succeeds() {
    let config = TmccConfig::default();
    let mut applet = Tmcc::new();
    assert_eq!(applet.on_message(&Message::UpdateAccountsOk, &config), Action::AnnounceReady);
    assert_eq!(applet.on_message(&Message::UpdateAccountsOk, &config), Action::AnnounceReady);
    applet.announced();
    assert_eq!(applet.on_message(&Message::UpdateAccountsOk, &config), Action::Ignore);
}

#[test]
fn shutdown_is_reported_for_signals_only() {
    let mut config = TmccConfig::default();
    let applet = Tmcc::new();
    let by_signal = Message::Shutdown(ShutdownReason::Signal);
    let by_hand = Message::Shutdown(ShutdownReason::InteractiveSignal);
    assert_eq!(applet.on_message(&by_signal, &config), Action::Stop { report: true });
    assert_eq!(applet.on_message(&by_hand, &config), Action::Stop { report: false });
    assert_eq!(state_for(Action::Stop { report: true }), Some(State::Shutdown));
    assert_eq!(state_for(Action::Stop { report: false }), None);
    assert_eq!(state_for(Action::AnnounceReady), Some(State::Up));
    assert_eq!(state_for(Action::Reload), None);
    config.report_shutdown = false;
    assert_eq!(applet.on_message(&by_signal, &config), Action::Stop { report: false });
    assert_eq!(applet.on_message(&by_hand, &config), Action::Stop { report: false });
}

#[test]
fn required_commands_follow_the_configuration() {
    let mut users = AutouserConfig::default();
    assert_eq!(users.required_commands(), vec!["useradd", "groupadd", "usermod", "groupmod"]);
    users.enable = false;
    assert!(users.required_commands().is_empty());
    assert_eq!(AutomountConfig::default().required_commands(), vec!["systemctl"]);
}

#[test]
fn missing_commands_are_unmet_requirements() {
    assert_eq!(requirements_met(&vec![]), Ok(()));
    assert_eq!(requirements_met(&vec!["useradd".to_string()]), Err(Error::UnmetSystemRequirements));
    let commands = vec!["sh".to_string(), "no-such-command-for-miniond-tests".to_string()];
    let missing = check_requirements(&commands);
    assert!(missing.contains(&commands[1]));
    assert!(missing.len() <= 2);
    assert!(check_requirements(&vec![]).is_empty());
}

#[test]
fn missing_commands_are_those_not_found() {
    let commands = AutouserConfig::default().required_commands();
    assert!(missing_commands(&commands, &vec![true, true, true, true]).is_empty());
    assert_eq!(missing_commands(&commands, &vec![false, true, false, true]), vec!["useradd", "usermod"]);
    assert_eq!(missing_commands(&commands, &vec![false, false, false, false]), commands);
    assert_eq!(missing_commands(&commands, &vec![true, true, true, false]), vec!["groupmod"]);
    assert!(missing_commands(&commands, &vec![false, false]).is_empty());
    assert!(missing_commands(&commands, &vec![false, false, false, false, false]).is_empty());
    assert!(missing_commands(&vec![], &vec![]).is_empty());
}
