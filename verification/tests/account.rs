use miniond::account::{
    find_admin_group, Accounts, Group, Invocation, LoginState, SystemConfiguration, Tool, User,
};
use miniond::error::Error;
use miniond::system::Passwd;

const BANNER: &str = "# This file was automatically generated by miniond\n# Please add your keys using the testbed web interface.\n\n";

fn strings(items: &[&str]) -> Vec<String> {
    items.iter().map(|s| s.to_string()).collect()
}

fn system(shells: &[&str], admin: &str) -> SystemConfiguration {
    SystemConfiguration::with_admin_group(&strings(shells), admin.to_string()).unwrap()
}

fn bob() -> User {
    let mut bob = User::new("bob".to_string(), 20001, 6418, "1630039457".to_string());
    bob.shell("fish".to_string());
    bob
}

#[test]
fn new_user_has_defaults() {
    let u = User::new("alice".to_string(), 20001, 12345, "7".to_string());
    assert_eq!(u.login(), "alice");
    assert_eq!(u.uid(), 20001);
    assert_eq!(u.gid(), 12345);
    assert!(!u.is_root());
    assert_eq!(u.home_dir(), "/users/alice");
    assert!(u.ssh_keys().is_empty());
    assert_eq!(u.login_shell(), "bash");
    assert_eq!(u.serial(), "7");
}

#[test]
fn builders_chain() {
    let mut u = User::new("alice".to_string(), 1, 2, String::new());
    u.root(true).home("/home/alice".to_string()).shell("zsh".to_string()).add_ssh_key("k1".to_string()).add_ssh_key("k2".to_string());
    assert!(u.is_root());
    assert_eq!(u.home_dir(), "/home/alice");
    assert_eq!(u.login_shell(), "zsh");
    assert_eq!(u.ssh_keys(), &strings(&["k1", "k2"]));
    let copy = u.duplicate();
    assert_eq!(copy.login(), "alice");
    assert_eq!(copy.ssh_keys(), &strings(&["k1", "k2"]));
    assert!(copy.is_root());
}

#[test]
fn accounts_keep_order_and_logins_apart() {
    let mut a = Accounts::new();
    assert!(a.users().is_empty() && a.groups().is_empty());
    assert!(a.add_user(User::new("a".to_string(), 1, 1, String::new())));
    assert!(a.add_user(User::new("b".to_string(), 2, 2, String::new())));
    assert!(!a.add_user(User::new("a".to_string(), 3, 3, String::new())));
    assert!(a.add_group(Group::new("g".to_string(), 5)));
    assert!(!a.add_group(Group::new("g".to_string(), 6)));
    assert_eq!(a.users().len(), 2);
    assert_eq!(a.users()[0].uid(), 1);
    assert_eq!(a.groups().len(), 1);
    assert_eq!(a.groups()[0].gid(), 5);
    assert_eq!(a.find_user("a"), Some(0));
    assert_eq!(a.find_user("b"), Some(1));
    assert_eq!(a.find_user("c"), None);
    assert_eq!(a.find_group("g"), Some(0));
    assert_eq!(a.find_group("a"), None);
    assert!(a.add_key("b", "key".to_string()));
    assert!(!a.add_key("c", "key".to_string()));
    assert_eq!(a.users()[1].ssh_keys(), &strings(&["key"]));
    assert!(a.users()[0].ssh_keys().is_empty());
    a.set_user(User::new("a".to_string(), 9, 9, String::new()));
    assert_eq!(a.users().len(), 2);
    assert_eq!(a.users()[0].uid(), 9);
    a.set_user(User::new("z".to_string(), 3, 3, String::new()));
    assert_eq!(a.users().len(), 3);
    assert_eq!(a.users()[2].login(), "z");
}

#[test]
fn shells_file_maps_names_to_first_paths() {
    let s = system(&["/bin/sh", "/bin/bash", "/usr/bin/bash", "/usr/bin/zsh/", "# /etc/shells: valid login shells"], "wheel");
    assert_eq!(s.shell_path("sh"), Some("/bin/sh"));
    assert_eq!(s.shell_path("bash"), Some("/bin/bash"));
    assert_eq!(s.shell_path("zsh"), Some("/usr/bin/zsh/"));
    assert_eq!(s.shell_path("shells: valid login shells"), Some("# /etc/shells: valid login shells"));
    assert_eq!(s.shell_path("fish"), None);
    assert_eq!(s.shell_path("/bin/bash"), None);
    assert_eq!(s.admin_group(), "wheel");
}

#[test]
fn shells_file_with_a_line_without_name_is_invalid() {
    for bad in ["", "/", ".."] {
        let r = SystemConfiguration::with_admin_group(&strings(&["/bin/sh", bad, "/bin/bash"]), "sudo".to_string());
        assert_eq!(r.err(), Some(Error::InvalidShellsFile), "{:?}", bad);
    }
}

#[test]
fn admin_group_is_configured_or_found() {
    assert_eq!(find_admin_group(false, false), "root");
    assert_eq!(find_admin_group(true, false), "wheel");
    assert_eq!(find_admin_group(false, true), "sudo");
    assert_eq!(find_admin_group(true, true), "wheel");
    let s = SystemConfiguration::new(Some("staff".to_string()), &strings(&["/bin/sh"])).unwrap();
    assert_eq!(s.admin_group(), "staff");
    let s = SystemConfiguration::new(None, &strings(&["/bin/sh"])).unwrap();
    assert!(["root", "wheel", "sudo"].contains(&s.admin_group()));
    assert_eq!(SystemConfiguration::new(None, &strings(&[""])).err(), Some(Error::InvalidShellsFile));
}

#[test]
fn duplicate_uid_scenario() {
    let s = system(&["/bin/bash"], "wheel");
    let state = LoginState::Absent { uid_holder: Some("carol".to_string()) };
    assert_eq!(
        bob().apply_to(&s, &state).unwrap_err(),
        Error::DuplicateUid { login: "bob".to_string(), uid: 20001, existing_login: "carol".to_string() }
    );
}

#[test]
fn shell_is_resolved_whatever_becomes_of_the_user() {
    let s = system(&["/bin/bash", "/usr/local/bin/fish"], "wheel");
    assert_eq!(bob().resolve_shell(&s), ("/usr/local/bin/fish".to_string(), true));
    let s = system(&["/bin/bash"], "wheel");
    assert_eq!(bob().resolve_shell(&s), ("/bin/sh".to_string(), false));
    let state = LoginState::Present { uid: 1, groups: None };
    assert_eq!(bob().apply_to(&s, &state).unwrap_err(), Error::UidChangeUnsupported);
    assert!(!bob().resolve_shell(&s).1);
    let alice = User::new("alice".to_string(), 1, 1, String::new());
    assert_eq!(alice.resolve_shell(&s), ("/bin/bash".to_string(), true));
    assert_eq!(alice.resolve_shell(&system(&[], "wheel")), ("/bin/sh".to_string(), false));
}

#[test]
fn shell_fallback_scenario() {
    let s = system(&["/bin/bash"], "wheel");
    let state = LoginState::Present { uid: 20001, groups: Some(strings(&["users", "wheel", "docker"])) };
    let plan = bob().apply_to(&s, &state).unwrap();
    assert!(!plan.shell_found);
    assert_eq!(plan.command.tool, Tool::UserMod);
    assert_eq!(plan.command.tool.program(), "usermod");
    assert_eq!(plan.command.args, strings(&["-s", "/bin/sh", "-G", "users,docker", "bob"]));
}

#[test]
fn update_keeps_admin_group_for_root_users() {
    let s = system(&["/bin/bash", "/usr/bin/fish"], "wheel");
    let mut user = bob();
    user.root(true);
    let state = LoginState::Present { uid: 20001, groups: Some(strings(&["wheel", "users"])) };
    let plan = user.apply_to(&s, &state).unwrap();
    assert!(plan.shell_found);
    assert_eq!(plan.command.args, strings(&["-s", "/usr/bin/fish", "-G", "wheel,users", "bob"]));
    let state = LoginState::Present { uid: 20001, groups: Some(vec![]) };
    let plan = user.apply_to(&s, &state).unwrap();
    assert_eq!(plan.command.args, strings(&["-s", "/usr/bin/fish", "-G", "", "bob"]));
    let state = LoginState::Present { uid: 20001, groups: Some(strings(&["wheel"])) };
    let plan = bob().apply_to(&s, &state).unwrap();
    assert_eq!(plan.command.args, strings(&["-s", "/usr/bin/fish", "-G", "", "bob"]));
}

#[test]
fn uid_change_is_refused_before_anything_else() {
    let s = system(&["/bin/bash"], "wheel");
    for groups in [None, Some(strings(&["users"]))] {
        let state = LoginState::Present { uid: 20002, groups };
        assert_eq!(bob().apply_to(&s, &state).unwrap_err(), Error::UidChangeUnsupported);
    }
    let state = LoginState::Present { uid: 20001 + 65536, groups: Some(vec![]) };
    assert_eq!(bob().apply_to(&s, &state).unwrap_err(), Error::UidChangeUnsupported);
    let state = LoginState::Present { uid: 20001, groups: None };
    assert_eq!(bob().apply_to(&s, &state).unwrap_err(), Error::UserUpdate);
}

#[test]
fn creation_arguments() {
    let s = system(&["/bin/bash"], "sudo");
    let mut user = User::new("alice".to_string(), 20001, 6418, "1".to_string());
    let state = LoginState::Absent { uid_holder: None };
    let plan = user.apply_to(&s, &state).unwrap();
    assert!(plan.shell_found);
    assert_eq!(plan.command.tool, Tool::UserAdd);
    assert_eq!(plan.command.tool.program(), "useradd");
    assert_eq!(
        plan.command.args,
        strings(&["--badname", "-m", "-d", "/users/alice", "-u", "20001", "-g", "6418", "-s", "/bin/bash", "-N", "alice"])
    );
    user.root(true).home("/home/a".to_string());
    let plan = user.apply_to(&s, &state).unwrap();
    assert_eq!(
        plan.command.args,
        strings(&["--badname", "-m", "-d", "/home/a", "-u", "20001", "-g", "6418", "-s", "/bin/bash", "-N", "alice", "-G", "sudo"])
    );
    let zero = User::new("z".to_string(), 0, 65535, String::new());
    let plan = zero.apply_to(&s, &state).unwrap();
    assert_eq!(plan.command.args[5], "0");
    assert_eq!(plan.command.args[7], "65535");
}

#[test]
fn authorized_keys_scenario() {
    let mut user = User::new("alice".to_string(), 20001, 6418, "1".to_string());
    user.add_ssh_key("ssh-ed25519 AAAAC3NzaC1lZDI1NTE5AAAA alice@laptop".to_string());
    user.add_ssh_key("ssh-ed25519 BBBBC3NzaC1lZDI1NTE5BBBB alice@desk".to_string());
    let keys = user.apply_authorized_keys();
    assert_eq!(
        keys.contents,
        format!("{}ssh-ed25519 AAAAC3NzaC1lZDI1NTE5AAAA alice@laptop\nssh-ed25519 BBBBC3NzaC1lZDI1NTE5BBBB alice@desk\n", BANNER)
    );
    assert_eq!(keys.home, "/users/alice");
    assert_eq!((keys.uid, keys.gid), (20001, 6418));
    let none = User::new("n".to_string(), 1, 1, String::new()).apply_authorized_keys();
    assert_eq!(none.contents, BANNER);
}

#[test]
fn applying_twice_creates_once_and_writes_the_same_keys() {
    let s = system(&["/bin/bash"], "wheel");
    let mut user = User::new("alice".to_string(), 20001, 6418, "1".to_string());
    user.add_ssh_key("ssh-ed25519 AAA".to_string());
    let first = user.apply_to(&s, &LoginState::Absent { uid_holder: None }).unwrap();
    assert_eq!(first.command.tool, Tool::UserAdd);
    let second = user.apply_to(&s, &LoginState::Present { uid: 20001, groups: Some(vec![]) }).unwrap();
    assert_eq!(second.command.tool, Tool::UserMod);
    assert_eq!(first.keys.contents, second.keys.contents);
    let group = Group::new("proj".to_string(), 6418);
    assert!(group.apply_to(None).unwrap().is_some());
    assert!(group.apply_to(Some(6418)).unwrap().is_none());
}

fn args_of(command: Option<Invocation>) -> Vec<String> {
    let command = command.unwrap();
    assert_eq!(command.tool, Tool::GroupAdd);
    assert_eq!(command.tool.program(), "groupadd");
    command.args
}

#[test]
fn group_is_created_in_lower_case() {
    let group = Group::new("Proj-PG0".to_string(), 6418);
    assert_eq!(group.name(), "Proj-PG0");
    assert_eq!(group.gid(), 6418);
    assert_eq!(args_of(group.apply_to(None).unwrap()), strings(&["-g", "6418", "proj-pg0"]));
    let group = Group::new("ÀBC-é".to_string(), 1);
    assert_eq!(args_of(group.apply_to(None).unwrap()), strings(&["-g", "1", "Àbc-é"]));
}

#[test]
fn group_with_another_gid_is_refused() {
    let group = Group::new("proj".to_string(), 6418);
    assert_eq!(group.apply_to(Some(6419)).unwrap_err(), Error::GidChangeUnsupported);
    assert_eq!(group.apply_to(Some(6418 + 65536)).unwrap_err(), Error::GidChangeUnsupported);
    assert!(group.apply_to(Some(6418)).unwrap().is_none());
}

#[test]
fn tool_failures_are_typed() {
    assert_eq!(Tool::UserAdd.finished(true), Ok(()));
    assert_eq!(Tool::UserAdd.finished(false), Err(Error::UserCreation));
    assert_eq!(Tool::UserMod.finished(false), Err(Error::UserUpdate));
    assert_eq!(Tool::GroupAdd.finished(false), Err(Error::GroupCreation));
    assert_eq!(Tool::GroupAdd.finished(true), Ok(()));
}

#[test]
fn asking_the_system_decides_as_for_its_answer() {
    let s = system(&["/bin/sh"], "wheel");
    let user = User::new("no-such-login-for-miniond-tests".to_string(), 64999, 64999, String::new());
    match user.apply(&s) {
        Ok(plan) => {
            assert!([Tool::UserAdd, Tool::UserMod].contains(&plan.command.tool));
            assert_eq!(plan.command.args.last().map(String::as_str), Some(user.login()));
            assert_eq!(plan.keys.contents, BANNER);
        }
        Err(Error::DuplicateUid { login, uid, .. }) => {
            assert_eq!(login, user.login());
            assert_eq!(uid, 64999);
        }
        Err(e) => assert!([Error::UidChangeUnsupported, Error::UserUpdate].contains(&e)),
    }
    let group = Group::new("No-Such-Group-For-Miniond-Tests".to_string(), 64999);
    match group.apply() {
        Ok(Some(command)) => assert_eq!(command.args, strings(&["-g", "64999", "no-such-group-for-miniond-tests"])),
        Ok(None) => {}
        Err(e) => assert_eq!(e, Error::GidChangeUnsupported),
    }
}

fn entry(name: &str, uid: u32) -> Passwd {
    Passwd { name: name.to_string(), uid, gid: 100, home: format!("/home/{}", name) }
}

#[test]
fn answers_of_the_system_make_the_login_state() {
    match LoginState::from_answers(Some(entry("bob", 20001)), Some(strings(&["users", "wheel"])), None) {
        LoginState::Present { uid, groups } => {
            assert_eq!(uid, 20001);
            assert_eq!(groups, Some(strings(&["users", "wheel"])));
        }
        other => panic!("{:?}", other),
    }
    match LoginState::from_answers(Some(entry("bob", 7)), None, Some(entry("carol", 7))) {
        LoginState::Present { uid, groups } => {
            assert_eq!(uid, 7);
            assert_eq!(groups, None);
        }
        other => panic!("{:?}", other),
    }
    match LoginState::from_answers(None, None, Some(entry("carol", 20001))) {
        LoginState::Absent { uid_holder } => assert_eq!(uid_holder, Some("carol".to_string())),
        other => panic!("{:?}", other),
    }
    match LoginState::from_answers(None, Some(strings(&["users"])), None) {
        LoginState::Absent { uid_holder } => assert_eq!(uid_holder, None),
        other => panic!("{:?}", other),
    }
}
