use miniond::account::{Accounts, User};
use miniond::error::Error;
use miniond::tmcc::parser::Response;
use miniond::system::Passwd;
use miniond::tmcc::reply::{
    accounts, accounts_line, accounts_response, allocation_status, mounts, root_account,
    root_account_line, root_home, root_home_from,
};
use miniond::tmcc::{Command, State};

fn lines(text: &[&str]) -> Vec<String> {
    text.iter().map(|l| l.to_string()).collect()
}

fn root() -> User {
    let mut root = User::new("root".to_string(), 0, 0, String::new());
    root.home("/root".to_string());
    root
}

const ALICE: &str = "ADDUSER LOGIN=alice PSWD=* UID=20001 GID=12345 ROOT=1 NAME=\"Alice Example\" HOMEDIR=/users/alice GLIST=\"\" SERIAL=1 EMAIL=\"r@l\" SHELL=bash\n";

#[test]
fn adduser_scenario() {
    let r = Response::parse(ALICE.trim()).unwrap();
    assert_eq!(r.response_type(), Some("ADDUSER"));
    assert_eq!("alice", *r.get("LOGIN").unwrap());
    assert_eq!("Alice Example", *r.get("NAME").unwrap());
    assert_eq!(20001, r.get_parsed::<u16>("UID").unwrap());
    assert_eq!("1", *r.get("ROOT").unwrap());
}

#[test]
fn mount_scenario() {
    let r = Response::parse("REMOTE=nfs.emulab:/proj/p-PG0 LOCAL=/proj/p-PG0").unwrap();
    assert!(r.response_type().is_none());
    assert_eq!("nfs.emulab:/proj/p-PG0", *r.get("REMOTE").unwrap());
    assert_eq!("/proj/p-PG0", *r.get("LOCAL").unwrap());
    assert!(r.get("OTHER").is_err());
}

#[test]
fn accounts_reply_builds_users_keys_and_groups() {
    let reply = lines(&[
        ALICE,
        "PUBKEY LOGIN=alice KEY=\"ssh-ed25519 AAA alice@x\"\n",
        "ADDGROUP NAME=Proj-PG0 GID=6418\n",
        "SFSKEY something=else\n".to_uppercase().as_str(),
        "PUBKEY LOGIN=alice KEY=\"ssh-ed25519 BBB alice@y\"\n",
    ]);
    let a = accounts(&reply, root()).unwrap();
    assert_eq!(a.users().len(), 2);
    let alice = &a.users()[0];
    assert_eq!(alice.login(), "alice");
    assert_eq!(alice.uid(), 20001);
    assert_eq!(alice.gid(), 12345);
    assert!(alice.is_root());
    assert_eq!(alice.home_dir(), "/users/alice");
    assert_eq!(alice.login_shell(), "bash");
    assert_eq!(alice.serial(), "1");
    assert_eq!(alice.ssh_keys(), &vec!["ssh-ed25519 AAA alice@x".to_string(), "ssh-ed25519 BBB alice@y".to_string()]);
    assert_eq!(a.users()[1].login(), "root");
    assert_eq!(a.users()[1].home_dir(), "/root");
    assert_eq!(a.groups().len(), 1);
    assert_eq!(a.groups()[0].name(), "proj-pg0");
    assert_eq!(a.groups()[0].gid(), 6418);
}

#[test]
fn root_replaces_a_user_named_root() {
    let reply = lines(&["ADDUSER LOGIN=root UID=5 GID=5 SERIAL=1 ROOT=0 HOMEDIR=/x SHELL=sh\n", ALICE]);
    let a = accounts(&reply, root()).unwrap();
    assert_eq!(a.users().len(), 2);
    assert_eq!(a.users()[0].login(), "root");
    assert_eq!(a.users()[0].uid(), 0);
    assert_eq!(a.users()[0].home_dir(), "/root");
    assert_eq!(a.users()[1].login(), "alice");
}

#[test]
fn second_adduser_with_same_login_is_a_duplicate() {
    let reply = lines(&[ALICE, "ADDGROUP NAME=g GID=1\n", ALICE]);
    assert_eq!(
        accounts(&reply, root()).unwrap_err(),
        Error::TmcdDuplicateUser { login: "alice".to_string() }
    );
}

#[test]
fn pubkey_for_unknown_login_is_rejected() {
    let reply = lines(&[ALICE, "PUBKEY LOGIN=bob KEY=k\n"]);
    assert_eq!(
        accounts(&reply, root()).unwrap_err(),
        Error::TmcdNoSuchUser { login: "bob".to_string() }
    );
}

#[test]
fn group_names_clash_after_lowercasing() {
    let reply = lines(&["ADDGROUP NAME=Staff GID=1\n", "ADDGROUP NAME=sTAFF GID=2\n"]);
    assert_eq!(
        accounts(&reply, root()).unwrap_err(),
        Error::TmcdDuplicateGroup { name: "staff".to_string() }
    );
}

#[test]
fn unknown_and_missing_directives_are_rejected() {
    assert_eq!(
        accounts(&lines(&["DELUSER LOGIN=alice\n"]), root()).unwrap_err(),
        Error::TmcdUnknownDirective { directive: "DELUSER".to_string(), line: "DELUSER LOGIN=alice\n".to_string() }
    );
    assert_eq!(
        accounts(&lines(&["LOGIN=alice\n"]), root()).unwrap_err(),
        Error::TmcdMissingDirective { line: "LOGIN=alice\n".to_string() }
    );
}

#[test]
fn accounts_errors_name_the_first_missing_or_bad_key() {
    assert_eq!(
        accounts(&lines(&["ADDUSER UID=x\n"]), root()).unwrap_err(),
        Error::TmcdMissingKey { key: "LOGIN".to_string(), line: "ADDUSER UID=x".to_string() }
    );
    assert_eq!(
        accounts(&lines(&["ADDUSER LOGIN=a UID=70000\n"]), root()).unwrap_err(),
        Error::TmcdBadValue { key: "UID".to_string(), value: "70000".to_string() }
    );
    assert_eq!(
        accounts(&lines(&["ADDUSER LOGIN=a UID=1 GID=2 SERIAL=3 HOMEDIR=/h SHELL=sh\n"]), root()).unwrap_err(),
        Error::TmcdMissingKey { key: "ROOT".to_string(), line: "ADDUSER LOGIN=a UID=1 GID=2 SERIAL=3 HOMEDIR=/h SHELL=sh".to_string() }
    );
    assert_eq!(
        accounts(&lines(&["\n"]), root()).unwrap_err(),
        Error::TmcdBadLine { line: "".to_string(), position: 0 }
    );
    assert_eq!(
        accounts(&lines(&["  ADDGROUP NAME=g gid=1 \r\n"]), root()).unwrap_err(),
        Error::TmcdBadLine { line: "ADDGROUP NAME=g gid=1".to_string(), position: 16 }
    );
}

#[test]
fn a_failed_line_leaves_the_accounts_as_they_were() {
    let mut a = Accounts::new();
    accounts_line(&mut a, ALICE).unwrap();
    assert!(accounts_line(&mut a, ALICE).is_err());
    assert!(accounts_line(&mut a, "PUBKEY LOGIN=bob KEY=k").is_err());
    let r = Response::parse("ADDGROUP NAME=G").unwrap();
    assert!(accounts_response(&mut a, &r, "ADDGROUP NAME=G").is_err());
    assert_eq!(a.users().len(), 1);
    assert_eq!(a.groups().len(), 0);
    assert!(a.users()[0].ssh_keys().is_empty());
}

#[test]
fn root_user_only_where_root_is_one() {
    let mut a = Accounts::new();
    accounts_line(&mut a, "ADDUSER LOGIN=a UID=1 GID=2 SERIAL=3 ROOT=0 HOMEDIR=/h SHELL=sh").unwrap();
    accounts_line(&mut a, "ADDUSER LOGIN=b UID=1 GID=2 SERIAL=3 ROOT=11 HOMEDIR=/h SHELL=sh").unwrap();
    accounts_line(&mut a, "ADDUSER LOGIN=c UID=1 GID=2 SERIAL=3 ROOT=1 HOMEDIR=/h SHELL=sh").unwrap();
    assert!(!a.users()[0].is_root());
    assert!(!a.users()[1].is_root());
    assert!(a.users()[2].is_root());
}

#[test]
fn localization_scan_stops_at_the_first_other_line() {
    let reply = lines(&[
        "ROOTPUBKEY=\"ssh-rsa AAA root@boss\"\n",
        "ROOTPUBKEY='ssh-rsa-BBB'\n",
        "ROOTKEY='-----BEGIN\n",
        "ROOTPUBKEY=\"ssh-rsa CCC\"\n",
    ]);
    let root = root_account("/root".to_string(), &reply);
    assert_eq!(root.login(), "root");
    assert_eq!(root.uid(), 0);
    assert_eq!(root.gid(), 0);
    assert!(!root.is_root());
    assert_eq!(root.home_dir(), "/root");
    assert_eq!(root.ssh_keys(), &vec!["ssh-rsa AAA root@boss".to_string(), "'ssh-rsa-BBB'".to_string()]);

    let reply = lines(&["ROOTPUBKEY=k1\n", "not a line\n", "ROOTPUBKEY=k2\n"]);
    let root = root_account("/".to_string(), &reply);
    assert_eq!(root.ssh_keys(), &vec!["k1".to_string()]);

    let mut user = User::new("root".to_string(), 0, 0, String::new());
    assert!(root_account_line(&mut user, "ROOTPUBKEY=k\n"));
    assert!(!root_account_line(&mut user, "OTHER=k\n"));
    assert!(!root_account_line(&mut user, "\n"));
    assert_eq!(user.ssh_keys(), &vec!["k".to_string()]);
}

#[test]
fn mounts_reply_skips_lines_without_remote() {
    let reply = lines(&[
        "REMOTE=nfs.emulab:/proj/p-PG0 LOCAL=/proj/p-PG0\n",
        "FSNODE=fs.emulab\n",
        "REMOTE=nfs.emulab:/share LOCAL=/share\n",
    ]);
    let m = mounts(&reply).unwrap();
    assert_eq!(m.len(), 2);
    assert_eq!(m[0].remote(), "nfs.emulab:/proj/p-PG0");
    assert_eq!(m[0].local(), "/proj/p-PG0");
    assert_eq!(m[1].remote(), "nfs.emulab:/share");
    assert_eq!(m[1].local(), "/share");
}

#[test]
fn mounts_reply_fails_on_bad_lines_and_missing_local() {
    assert_eq!(
        mounts(&lines(&["REMOTE=a:/b\n"])).unwrap_err(),
        Error::TmcdMissingKey { key: "LOCAL".to_string(), line: "REMOTE=a:/b".to_string() }
    );
    assert_eq!(
        mounts(&lines(&["REMOTE=a:/b LOCAL=/b\n", "remote=x\n"])).unwrap_err(),
        Error::TmcdBadLine { line: "remote=x".to_string(), position: 0 }
    );
}

#[test]
fn status_reply_free_or_allocated() {
    assert!(allocation_status("FREE\n").unwrap().is_none());
    let s = allocation_status("ALLOCATED=proj/exp NICKNAME=node0\n").unwrap().unwrap();
    assert_eq!(s.experiment, "proj/exp");
    assert_eq!(s.node_name, "node0");
    assert_eq!(
        allocation_status("ALLOCATED=proj/exp\n").unwrap_err(),
        Error::TmcdMissingKey { key: "NICKNAME".to_string(), line: "ALLOCATED=proj/exp".to_string() }
    );
    assert_eq!(
        allocation_status("").unwrap_err(),
        Error::TmcdBadLine { line: "".to_string(), position: 0 }
    );
}

#[test]
fn request_frames() {
    assert_eq!(Command::new("accounts").finalize(), b"VERSION=44 accounts ".to_vec());
    assert_eq!(
        Command::new("state").arg(State::Setup.as_ref()).finalize(),
        b"VERSION=44 state MFSSETUP ".to_vec()
    );
    assert_eq!(
        Command::new("state").arg(State::Up.as_ref()).finalize(),
        b"VERSION=44 state ISUP ".to_vec()
    );
    assert_eq!(
        Command::new("state").arg(State::Shutdown.as_ref()).finalize(),
        b"VERSION=44 state SHUTDOWN ".to_vec()
    );
    assert_eq!(Command::new("a").arg("b").arg("c").finalize(), b"VERSION=44 a b c ".to_vec());
}

#[test]
fn root_home_is_that_of_the_entry_of_uid_zero() {
    let entry = Passwd { name: "toor".to_string(), uid: 0, gid: 0, home: "/var/root".to_string() };
    assert_eq!(root_home_from(Some(entry)), Ok("/var/root".to_string()));
    assert_eq!(root_home_from(None), Err(Error::TmcdNoSuchUser { login: "root".to_string() }));
    match root_home() {
        Ok(_) => {}
        Err(e) => assert_eq!(e, Error::TmcdNoSuchUser { login: "root".to_string() }),
    }
}

#[test]
fn white_space_around_a_line_is_removed() {
    let white = ['\u{9}', '\u{a}', '\u{b}', '\u{c}', '\u{d}', ' ', '\u{85}', '\u{a0}', '\u{1680}', '\u{2000}',
        '\u{2001}', '\u{2002}', '\u{2003}', '\u{2004}', '\u{2005}', '\u{2006}', '\u{2007}', '\u{2008}',
        '\u{2009}', '\u{200a}', '\u{2028}', '\u{2029}', '\u{202f}', '\u{205f}', '\u{3000}'];
    for code in 0..=0x10ffffu32 {
        if let Some(c) = char::from_u32(code) {
            assert_eq!(c.is_whitespace(), white.contains(&c), "{:x}", code);
        }
    }
    for c in white {
        let line = format!("{}{} FREE{}{}", c, c, c, c);
        assert!(allocation_status(&line).unwrap().is_none(), "{:?}", c);
    }
    for c in ['\u{0}', '\u{8}', '\u{e}', '\u{1f}', '\u{180e}', '\u{200b}', '\u{2060}', '\u{feff}', '_'] {
        let line = format!("FREE{}", c);
        assert_eq!(
            allocation_status(&line).unwrap_err(),
            Error::TmcdBadLine { line: line.clone(), position: 0 },
            "{:?}", c
        );
    }
    assert_eq!(
        allocation_status(" \tA=1  B=2\r\n").unwrap_err(),
        Error::TmcdBadLine { line: "A=1  B=2".to_string(), position: 4 }
    );
}
