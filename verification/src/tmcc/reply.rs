//! What the replies to the text commands mean: each line of a reply is
//! parsed and folded into the record that the command returns.

use vstd::prelude::*;
use crate::account::{
    lemma_user_index_push, lemma_user_index_update, user_index, Accounts, AccountsView, Group,
    GroupView, User, UserView,
};
use crate::error::{Error, ErrorView};
use crate::mount::{mount_views, NfsMount, NfsMountView};
use crate::system::{lookup_user_by_uid, Passwd};
use crate::tmcc::{AllocationStatus, AllocationStatusView};
use crate::text::{
    bytes_of, lower_text, read_u16, str_eq, to_ascii_lowercase, trim, trimmed, views,
};
use crate::tmcc::parser::{parse_line, response_of, Response, ResponseView};

verus! {

/// The value of a key that a command requires.
pub open spec fn field(response: ResponseView, key: Seq<char>) -> Result<Seq<char>, ErrorView> {
    if response.kv.contains_key(key) {
        Ok(response.kv[key])
    } else {
        Err(ErrorView::TmcdMissingKey { key, line: response.line })
    }
}

/// The value of a key that a command requires, read as a number.
pub open spec fn number(response: ResponseView, key: Seq<char>) -> Result<u16, ErrorView> {
    match field(response, key) {
        Ok(value) => match read_u16(bytes_of(value)) {
            Some(n) => Ok(n),
            None => Err(ErrorView::TmcdBadValue { key, value }),
        },
        Err(e) => Err(e),
    }
}

/// The user that an `ADDUSER` line describes. The keys are read in the
/// order `LOGIN`, `UID`, `GID`, `SERIAL`, `ROOT`, `HOMEDIR`, `SHELL`, and the
/// first that is missing or unreadable decides the error. The user has root
/// access exactly where `ROOT` is `1`.
pub open spec fn user_of(response: ResponseView) -> Result<UserView, ErrorView> {
    match field(response, "LOGIN"@) {
        Err(e) => Err(e),
        Ok(login) => match number(response, "UID"@) {
            Err(e) => Err(e),
            Ok(uid) => match number(response, "GID"@) {
                Err(e) => Err(e),
                Ok(gid) => match field(response, "SERIAL"@) {
                    Err(e) => Err(e),
                    Ok(serial) => match field(response, "ROOT"@) {
                        Err(e) => Err(e),
                        Ok(root) => match field(response, "HOMEDIR"@) {
                            Err(e) => Err(e),
                            Ok(home) => match field(response, "SHELL"@) {
                                Err(e) => Err(e),
                                Ok(shell) => Ok(
                                    UserView {
                                        login,
                                        uid,
                                        gid,
                                        root: root == "1"@,
                                        home,
                                        ssh_keys: Seq::empty(),
                                        shell,
                                        serial,
                                    },
                                ),
                            },
                        },
                    },
                },
            },
        },
    }
}

/// The group that an `ADDGROUP` line describes: its name in lower case,
/// and its GID.
pub open spec fn group_of(response: ResponseView) -> Result<GroupView, ErrorView> {
    match field(response, "NAME"@) {
        Err(e) => Err(e),
        Ok(name) => match number(response, "GID"@) {
            Err(e) => Err(e),
            Ok(gid) => Ok(GroupView { name: lower_text(name), gid }),
        },
    }
}

/// The accounts after one more line of an accounts reply. `line` is the
/// line as it was received.
///
/// - `ADDUSER` adds a user; a login that is present already is an error.
/// - `PUBKEY` adds a key to a user that an earlier line has added.
/// - `ADDGROUP` adds a group under its lower-case name; a name that is
///   present already is an error.
/// - `SFSKEY` changes nothing.
/// - Any other directive, and a line without one, is an error.
pub open spec fn accounts_step(accounts: AccountsView, response: ResponseView, line: Seq<char>)
    -> Result<AccountsView, ErrorView> {
    match response.response_type {
        None => Err(ErrorView::TmcdMissingDirective { line }),
        Some(directive) => if directive == "ADDUSER"@ {
            match user_of(response) {
                Err(e) => Err(e),
                Ok(user) => if accounts.has_user(user.login) {
                    Err(ErrorView::TmcdDuplicateUser { login: user.login })
                } else {
                    Ok(accounts.with_user(user))
                },
            }
        } else if directive == "PUBKEY"@ {
            match field(response, "LOGIN"@) {
                Err(e) => Err(e),
                Ok(login) => match field(response, "KEY"@) {
                    Err(e) => Err(e),
                    Ok(key) => if accounts.has_user(login) {
                        Ok(accounts.with_key(login, key))
                    } else {
                        Err(ErrorView::TmcdNoSuchUser { login })
                    },
                },
            }
        } else if directive == "ADDGROUP"@ {
            match group_of(response) {
                Err(e) => Err(e),
                Ok(group) => if accounts.has_group(group.name) {
                    Err(ErrorView::TmcdDuplicateGroup { name: group.name })
                } else {
                    Ok(accounts.with_group(group))
                },
            }
        } else if directive == "SFSKEY"@ {
            Ok(accounts)
        } else {
            Err(ErrorView::TmcdUnknownDirective { directive, line })
        },
    }
}

/// The record that a line of a reply is parsed to, once the white space
/// around it is removed.
pub open spec fn response_to(line: Seq<char>) -> Result<ResponseView, ErrorView> {
    let text = trimmed(line);
    match parse_line(bytes_of(text)) {
        Ok(tokens) => Ok(response_of(text, tokens)),
        Err(position) => Err(ErrorView::TmcdBadLine { line: text, position }),
    }
}

/// The accounts after one more line of an accounts reply, as it was
/// received.
pub open spec fn accounts_line_step(accounts: AccountsView, line: Seq<char>) -> Result<
    AccountsView,
    ErrorView,
> {
    match response_to(line) {
        Ok(response) => accounts_step(accounts, response, line),
        Err(e) => Err(e),
    }
}

/// Reads a line of a reply: removes the white space around it and parses
/// the rest.
pub fn read_line(line: &str) -> (r: Result<Response, Error>)
    ensures
        match response_to(line@) {
            Ok(response) => r matches Ok(parsed) && parsed@ == response,
            Err(e) => r matches Err(error) && error@ == e,
        },
{
    Response::parse(trim(line))
}

/// Reads the user that an `ADDUSER` line describes.
pub fn read_user(response: &Response) -> (r: Result<User, Error>)
    ensures
        match user_of(response@) {
            Ok(user) => r matches Ok(u) && u@ == user,
            Err(e) => r matches Err(error) && error@ == e,
        },
{
    let login: String = response.get_parsed("LOGIN")?;
    let uid: u16 = response.get_parsed("UID")?;
    let gid: u16 = response.get_parsed("GID")?;
    let serial: String = response.get_parsed("SERIAL")?;
    let mut user = User::new(login, uid, gid, serial);
    let root = str_eq(response.get("ROOT")?.as_str(), "1");
    let home: String = response.get_parsed("HOMEDIR")?;
    let shell: String = response.get_parsed("SHELL")?;
    user.root(root).home(home).shell(shell);
    Ok(user)
}

/// Reads the group that an `ADDGROUP` line describes.
pub fn read_group(response: &Response) -> (r: Result<Group, Error>)
    ensures
        match group_of(response@) {
            Ok(group) => r matches Ok(g) && g@ == group,
            Err(e) => r matches Err(error) && error@ == e,
        },
{
    let name: String = response.get_parsed("NAME")?;
    let name = to_ascii_lowercase(name.as_str());
    let gid: u16 = response.get_parsed("GID")?;
    Ok(Group::new(name, gid))
}

/// Takes one parsed line of an accounts reply into the accounts. `line`
/// is the line as it was received. On an error the accounts are left as
/// they were.
pub fn accounts_response(accounts: &mut Accounts, response: &Response, line: &str) -> (r: Result<
    (),
    Error,
>)
    ensures
        old(accounts)@.wf() ==> final(accounts)@.wf(),
        match accounts_step(old(accounts)@, response@, line@) {
            Ok(next) => r is Ok && final(accounts)@ == next,
            Err(e) => r matches Err(error) && error@ == e && final(accounts)@ == old(accounts)@,
        },
{
    let directive = match response.response_type() {
        Some(directive) => directive,
        None => {
            return Err(Error::TmcdMissingDirective { line: line.to_owned() });
        },
    };
    if str_eq(directive, "ADDUSER") {
        let user = read_user(response)?;
        let login = user.login().to_owned();
        if accounts.add_user(user) {
            Ok(())
        } else {
            Err(Error::TmcdDuplicateUser { login })
        }
    } else if str_eq(directive, "PUBKEY") {
        let login: String = response.get_parsed("LOGIN")?;
        let key: String = response.get_parsed("KEY")?;
        if accounts.add_key(login.as_str(), key) {
            Ok(())
        } else {
            Err(Error::TmcdNoSuchUser { login })
        }
    } else if str_eq(directive, "ADDGROUP") {
        let group = read_group(response)?;
        let name = group.name().to_owned();
        if accounts.add_group(group) {
            Ok(())
        } else {
            Err(Error::TmcdDuplicateGroup { name })
        }
    } else if str_eq(directive, "SFSKEY") {
        Ok(())
    } else {
        Err(
            Error::TmcdUnknownDirective {
                directive: directive.to_owned(),
                line: line.to_owned(),
            },
        )
    }
}

/// Takes one line of an accounts reply, as it was received, into the
/// accounts. On an error the accounts are left as they were.
pub fn accounts_line(accounts: &mut Accounts, line: &str) -> (r: Result<(), Error>)
    ensures
        old(accounts)@.wf() ==> final(accounts)@.wf(),
        match accounts_line_step(old(accounts)@, line@) {
            Ok(next) => r is Ok && final(accounts)@ == next,
            Err(e) => r matches Err(error) && error@ == e && final(accounts)@ == old(accounts)@,
        },
{
    let response = read_line(line)?;
    accounts_response(accounts, &response, line)
}

/// The accounts that the lines of an accounts reply add up to, before the
/// root account joins them.
pub open spec fn accounts_fold(lines: Seq<Seq<char>>) -> Result<AccountsView, ErrorView>
    decreases lines.len(),
{
    if lines.len() == 0 {
        Ok(AccountsView::empty())
    } else {
        match accounts_fold(lines.drop_last()) {
            Ok(accounts) => accounts_line_step(accounts, lines.last()),
            Err(e) => Err(e),
        }
    }
}

/// The accounts that an accounts reply stands for: those of its lines,
/// with `root` standing for the login `root`. The first line that fails
/// decides the error.
pub open spec fn accounts_of(lines: Seq<Seq<char>>, root: UserView) -> Result<
    AccountsView,
    ErrorView,
> {
    match accounts_fold(lines) {
        Ok(accounts) => Ok(accounts.with_user_replaced(root)),
        Err(e) => Err(e),
    }
}

/// The accounts that should be configured, from the lines of the reply to
/// `accounts` and the root account.
pub fn accounts(lines: &Vec<String>, root: User) -> (r: Result<Accounts, Error>)
    ensures
        match accounts_of(views(lines@), root@) {
            Ok(accounts) => r matches Ok(a) && a@ == accounts && a@.wf(),
            Err(e) => r matches Err(error) && error@ == e,
        },
{
    let mut accounts = Accounts::new();
    let mut i: usize = 0;
    let ghost all = views(lines@);
    assert(all.subrange(0, 0) =~= Seq::empty());
    while i < lines.len()
        invariant
            i <= lines@.len(),
            all == views(lines@),
            accounts@.wf(),
            accounts_fold(all.subrange(0, i as int)) == Ok::<AccountsView, ErrorView>(accounts@),
        decreases lines@.len() - i,
    {
        let ghost before = all.subrange(0, i as int);
        let ghost longer = all.subrange(0, i + 1);
        proof {
            assert(longer.drop_last() =~= before);
            assert(longer.last() == lines@[i as int]@);
        }
        match accounts_line(&mut accounts, lines[i].as_str()) {
            Ok(()) => {},
            Err(e) => {
                proof {
                    lemma_accounts_fold_fails(all, i + 1);
                }
                return Err(e);
            },
        }
        i += 1;
    }
    assert(all.subrange(0, i as int) =~= all);
    accounts.set_user(root);
    Ok(accounts)
}

/// Once a line has failed, the lines after it change nothing.
pub proof fn lemma_accounts_fold_fails(lines: Seq<Seq<char>>, failed: int)
    requires
        0 <= failed <= lines.len(),
        accounts_fold(lines.subrange(0, failed)) is Err,
    ensures
        accounts_fold(lines) == accounts_fold(lines.subrange(0, failed)),
    decreases lines.len(),
{
    if failed == lines.len() {
        assert(lines.subrange(0, failed) =~= lines);
    } else {
        let init = lines.drop_last();
        assert(init.subrange(0, failed) =~= lines.subrange(0, failed));
        lemma_accounts_fold_fails(init, failed);
    }
}

/// The keys of the leading lines of a localization reply that parse and
/// hold `ROOTPUBKEY`. The first line that does not ends the scan.
pub open spec fn root_keys(lines: Seq<Seq<char>>) -> Seq<Seq<char>>
    decreases lines.len(),
{
    if lines.len() == 0 {
        Seq::empty()
    } else {
        match response_to(lines[0]) {
            Ok(response) => if response.kv.contains_key("ROOTPUBKEY"@) {
                seq![response.kv["ROOTPUBKEY"@]] + root_keys(lines.drop_first())
            } else {
                Seq::empty()
            },
            Err(_) => Seq::empty(),
        }
    }
}

/// The root account before any key is known: UID and GID 0, the given
/// home, no keys.
pub open spec fn bare_root(home: Seq<char>) -> UserView {
    UserView {
        login: "root"@,
        uid: 0,
        gid: 0,
        root: false,
        home,
        ssh_keys: Seq::empty(),
        shell: "bash"@,
        serial: Seq::empty(),
    }
}

/// The root account before any key is known.
pub fn new_root(home: String) -> (r: User)
    ensures
        r@ == bare_root(home@),
{
    let mut root = User::new("root".to_owned(), 0, 0, String::new());
    root.home(home);
    root
}

/// Asks the system for the home of the user with UID 0. Fails with
/// `TmcdNoSuchUser` for the login `root` where the system has no such user.
pub fn root_home() -> (r: Result<String, Error>)
    ensures
        r matches Err(e) ==> e@ == (ErrorView::TmcdNoSuchUser { login: "root"@ }),
        exists|found: Option<Passwd>| home_matches(r, root_home_of(found)),
{
    let found = lookup_user_by_uid(0);
    let r = root_home_from(found);
    assert(home_matches(r, root_home_of(found)));
    r
}

/// The home of the root account, given the entry that the system's user
/// database has for UID 0: the home of that entry; without an entry there
/// is no user `root`.
pub open spec fn root_home_of(found: Option<Passwd>) -> Result<Seq<char>, ErrorView> {
    match found {
        Some(root) => Ok(root.home@),
        None => Err(ErrorView::TmcdNoSuchUser { login: "root"@ }),
    }
}

/// Relates a home, or the failure to find one, to its value.
pub open spec fn home_matches(r: Result<String, Error>, expected: Result<Seq<char>, ErrorView>)
    -> bool {
    match expected {
        Ok(home) => r matches Ok(h) && h@ == home,
        Err(e) => r matches Err(error) && error@ == e,
    }
}

/// The home of the root account, given the entry that the system's user
/// database has for UID 0.
pub fn root_home_from(found: Option<Passwd>) -> (r: Result<String, Error>)
    ensures
        home_matches(r, root_home_of(found)),
{
    match found {
        Some(root) => Ok(root.home),
        None => Err(Error::TmcdNoSuchUser { login: "root".to_owned() }),
    }
}

/// Takes one line of a localization reply into the root account. Returns
/// whether the scan goes on: the line parses and holds `ROOTPUBKEY`, whose
/// value is then one more key of the account. Any other line leaves the
/// account as it was.
pub fn root_account_line(root: &mut User, line: &str) -> (more: bool)
    ensures
        match response_to(line@) {
            Ok(response) => if response.kv.contains_key("ROOTPUBKEY"@) {
                more && final(root)@ == (UserView {
                    ssh_keys: old(root)@.ssh_keys.push(response.kv["ROOTPUBKEY"@]),
                    ..old(root)@
                })
            } else {
                !more && final(root)@ == old(root)@
            },
            Err(_) => !more && final(root)@ == old(root)@,
        },
{
    match read_line(line) {
        Ok(response) => {
            let key: Result<String, Error> = response.get_parsed("ROOTPUBKEY");
            match key {
                Ok(key) => {
                    root.add_ssh_key(key);
                    true
                },
                Err(_) => false,
            }
        },
        Err(_) => false,
    }
}

/// The root account, from its home and the lines of the reply to
/// `localization`.
pub fn root_account(home: String, lines: &Vec<String>) -> (r: User)
    ensures
        r@ == (UserView { ssh_keys: root_keys(views(lines@)), ..bare_root(home@) }),
{
    let mut root = new_root(home);
    let ghost all = views(lines@);
    let mut i: usize = 0;
    assert(root@.ssh_keys + root_keys(all.subrange(0, all.len() as int)) =~= root_keys(all)) by {
        assert(all.subrange(0, all.len() as int) =~= all);
    }
    while i < lines.len()
        invariant
            i <= lines@.len(),
            all == views(lines@),
            root@ == (UserView { ssh_keys: root@.ssh_keys, ..bare_root(home@) }),
            root@.ssh_keys + root_keys(all.subrange(i as int, all.len() as int)) == root_keys(all),
        decreases lines@.len() - i,
    {
        let ghost rest = all.subrange(i as int, all.len() as int);
        let ghost keys = root@.ssh_keys;
        proof {
            assert(rest[0] == lines@[i as int]@);
            assert(rest.drop_first() =~= all.subrange(i + 1, all.len() as int));
        }
        let more = root_account_line(&mut root, lines[i].as_str());
        if !more {
            assert(root_keys(rest) =~= Seq::empty());
            assert(keys + Seq::<Seq<char>>::empty() =~= keys);
            return root;
        }
        proof {
            let key = response_to(rest[0])->Ok_0.kv["ROOTPUBKEY"@];
            assert(keys + (seq![key] + root_keys(rest.drop_first())) =~= keys.push(key)
                + root_keys(rest.drop_first()));
        }
        i += 1;
    }
    proof {
        assert(all.subrange(i as int, all.len() as int) =~= Seq::empty());
        assert(root@.ssh_keys + Seq::<Seq<char>>::empty() =~= root@.ssh_keys);
    }
    root
}

/// The mounts after one more parsed line of a mounts reply: a line with
/// `REMOTE` adds the mount of `REMOTE` at `LOCAL`, which it must hold; any
/// other line adds nothing.
pub open spec fn mounts_step(mounts: Seq<NfsMountView>, response: ResponseView) -> Result<
    Seq<NfsMountView>,
    ErrorView,
> {
    if response.kv.contains_key("REMOTE"@) {
        match field(response, "LOCAL"@) {
            Ok(local) => Ok(mounts.push(NfsMountView { remote: response.kv["REMOTE"@], local })),
            Err(e) => Err(e),
        }
    } else {
        Ok(mounts)
    }
}

/// The mounts after one more line of a mounts reply, as it was received.
pub open spec fn mounts_line_step(mounts: Seq<NfsMountView>, line: Seq<char>) -> Result<
    Seq<NfsMountView>,
    ErrorView,
> {
    match response_to(line) {
        Ok(response) => mounts_step(mounts, response),
        Err(e) => Err(e),
    }
}

/// The mounts that the lines of a mounts reply add up to. The first line
/// that fails decides the error.
pub open spec fn mounts_of(lines: Seq<Seq<char>>) -> Result<Seq<NfsMountView>, ErrorView>
    decreases lines.len(),
{
    if lines.len() == 0 {
        Ok(Seq::empty())
    } else {
        match mounts_of(lines.drop_last()) {
            Ok(mounts) => mounts_line_step(mounts, lines.last()),
            Err(e) => Err(e),
        }
    }
}

/// Takes one parsed line of a mounts reply into the mounts. On an error
/// the mounts are left as they were.
pub fn mounts_response(mounts: &mut Vec<NfsMount>, response: &Response) -> (r: Result<(), Error>)
    ensures
        match mounts_step(mount_views(old(mounts)@), response@) {
            Ok(next) => r is Ok && mount_views(final(mounts)@) == next,
            Err(e) => r matches Err(error) && error@ == e && final(mounts)@ == old(mounts)@,
        },
{
    let remote: Result<String, Error> = response.get_parsed("REMOTE");
    match remote {
        Ok(remote) => {
            let local: String = response.get_parsed("LOCAL")?;
            let mount = NfsMount::new(remote, local);
            let ghost before = mount_views(mounts@);
            mounts.push(mount);
            assert(mount_views(mounts@) =~= before.push(mount@));
            Ok(())
        },
        Err(_) => {
            Ok(())
        },
    }
}

/// Takes one line of a mounts reply, as it was received, into the mounts.
/// On an error the mounts are left as they were.
pub fn mounts_line(mounts: &mut Vec<NfsMount>, line: &str) -> (r: Result<(), Error>)
    ensures
        match mounts_line_step(mount_views(old(mounts)@), line@) {
            Ok(next) => r is Ok && mount_views(final(mounts)@) == next,
            Err(e) => r matches Err(error) && error@ == e && final(mounts)@ == old(mounts)@,
        },
{
    let response = read_line(line)?;
    mounts_response(mounts, &response)
}

/// Once a line has failed, the lines after it change nothing.
pub proof fn lemma_mounts_of_fails(lines: Seq<Seq<char>>, failed: int)
    requires
        0 <= failed <= lines.len(),
        mounts_of(lines.subrange(0, failed)) is Err,
    ensures
        mounts_of(lines) == mounts_of(lines.subrange(0, failed)),
    decreases lines.len(),
{
    if failed == lines.len() {
        assert(lines.subrange(0, failed) =~= lines);
    } else {
        let init = lines.drop_last();
        assert(init.subrange(0, failed) =~= lines.subrange(0, failed));
        lemma_mounts_of_fails(init, failed);
    }
}

/// The mounts that should be configured, from the lines of the reply to
/// `mounts`.
pub fn mounts(lines: &Vec<String>) -> (r: Result<Vec<NfsMount>, Error>)
    ensures
        match mounts_of(views(lines@)) {
            Ok(mounts) => r matches Ok(m) && mount_views(m@) == mounts,
            Err(e) => r matches Err(error) && error@ == e,
        },
{
    let mut mounts: Vec<NfsMount> = Vec::new();
    let mut i: usize = 0;
    let ghost all = views(lines@);
    assert(all.subrange(0, 0) =~= Seq::empty());
    assert(mount_views(mounts@) =~= Seq::empty());
    while i < lines.len()
        invariant
            i <= lines@.len(),
            all == views(lines@),
            mounts_of(all.subrange(0, i as int)) == Ok::<Seq<NfsMountView>, ErrorView>(
                mount_views(mounts@),
            ),
        decreases lines@.len() - i,
    {
        let ghost before = all.subrange(0, i as int);
        let ghost longer = all.subrange(0, i + 1);
        proof {
            assert(longer.drop_last() =~= before);
            assert(longer.last() == lines@[i as int]@);
        }
        match mounts_line(&mut mounts, lines[i].as_str()) {
            Ok(()) => {},
            Err(e) => {
                proof {
                    lemma_mounts_of_fails(all, i + 1);
                }
                return Err(e);
            },
        }
        i += 1;
    }
    assert(all.subrange(0, i as int) =~= all);
    Ok(mounts)
}

/// The allocation that a parsed status line reports: none where the line
/// starts with `FREE`, else the experiment under `ALLOCATED` and the node's
/// nickname under `NICKNAME`.
pub open spec fn allocation_of(response: ResponseView) -> Result<
    Option<AllocationStatusView>,
    ErrorView,
> {
    if response.response_type == Some("FREE"@) {
        Ok(None)
    } else {
        match field(response, "ALLOCATED"@) {
            Err(e) => Err(e),
            Ok(experiment) => match field(response, "NICKNAME"@) {
                Err(e) => Err(e),
                Ok(node_name) => Ok(Some(AllocationStatusView { experiment, node_name })),
            },
        }
    }
}

/// The allocation that the line of a status reply reports.
pub open spec fn allocation_of_line(line: Seq<char>) -> Result<
    Option<AllocationStatusView>,
    ErrorView,
> {
    match response_to(line) {
        Ok(response) => allocation_of(response),
        Err(e) => Err(e),
    }
}

/// Relates an outcome to its value.
pub open spec fn allocation_matches(
    r: Result<Option<AllocationStatus>, Error>,
    expected: Result<Option<AllocationStatusView>, ErrorView>,
) -> bool {
    match expected {
        Ok(None) => r matches Ok(None),
        Ok(Some(status)) => r matches Ok(Some(s)) && s@ == status,
        Err(e) => r matches Err(error) && error@ == e,
    }
}

/// The allocation status that a parsed status line reports.
pub fn allocation_response(response: &Response) -> (r: Result<Option<AllocationStatus>, Error>)
    ensures
        allocation_matches(r, allocation_of(response@)),
{
    let free = match response.response_type() {
        Some(word) => str_eq(word, "FREE"),
        None => false,
    };
    if free {
        Ok(None)
    } else {
        let experiment: String = response.get_parsed("ALLOCATED")?;
        let node_name: String = response.get_parsed("NICKNAME")?;
        Ok(Some(AllocationStatus { experiment, node_name }))
    }
}

/// The allocation status of the node, from the line of the reply to
/// `status`.
pub fn allocation_status(line: &str) -> (r: Result<Option<AllocationStatus>, Error>)
    ensures
        allocation_matches(r, allocation_of_line(line@)),
{
    let response = read_line(line)?;
    allocation_response(&response)
}

/// Whether a line of an accounts reply is an `ADDUSER` line that describes
/// a user with the given login.
pub open spec fn adds_user(line: Seq<char>, login: Seq<char>) -> bool {
    &&& response_to(line) matches Ok(response)
    &&& response.response_type == Some("ADDUSER"@)
    &&& user_of(response) matches Ok(user)
    &&& user.login == login
}

/// Whether a line of an accounts reply is a `PUBKEY` line that holds a key
/// for the given login.
pub open spec fn adds_key(line: Seq<char>, login: Seq<char>) -> bool {
    &&& response_to(line) matches Ok(response)
    &&& response.response_type == Some("PUBKEY"@)
    &&& field(response, "LOGIN"@) == Ok::<Seq<char>, ErrorView>(login)
    &&& field(response, "KEY"@) is Ok
}

/// The names of the directives differ from each other.
pub proof fn lemma_directives_differ()
    ensures
        "ADDUSER"@ != "PUBKEY"@,
        "ADDUSER"@ != "ADDGROUP"@,
        "ADDUSER"@ != "SFSKEY"@,
        "PUBKEY"@ != "ADDGROUP"@,
        "PUBKEY"@ != "SFSKEY"@,
        "ADDGROUP"@ != "SFSKEY"@,
{
    reveal_strlit("ADDUSER");
    reveal_strlit("PUBKEY");
    reveal_strlit("ADDGROUP");
    reveal_strlit("SFSKEY");
    assert("ADDUSER"@[0] != "PUBKEY"@[0]);
    assert("ADDUSER"@.len() != "ADDGROUP"@.len());
    assert("ADDUSER"@[0] != "SFSKEY"@[0]);
    assert("PUBKEY"@[0] != "ADDGROUP"@[0]);
    assert("PUBKEY"@[0] != "SFSKEY"@[0]);
    assert("ADDGROUP"@[0] != "SFSKEY"@[0]);
}

/// One accepted line takes no user away, and adds a user only where it is
/// an `ADDUSER` line for that user's login.
pub proof fn lemma_step_users(accounts: AccountsView, line: Seq<char>, login: Seq<char>)
    requires
        accounts_line_step(accounts, line) is Ok,
    ensures
        accounts.has_user(login) ==> accounts_line_step(accounts, line)->Ok_0.has_user(login),
        adds_user(line, login) ==> accounts_line_step(accounts, line)->Ok_0.has_user(login),
        accounts_line_step(accounts, line)->Ok_0.has_user(login) ==> accounts.has_user(login)
            || adds_user(line, login),
{
    lemma_directives_differ();
    let response = response_to(line)->Ok_0;
    let directive = response.response_type->0;
    if directive == "ADDUSER"@ {
        let user = user_of(response)->Ok_0;
        lemma_user_index_push(accounts.users, user, login);
    } else if directive == "PUBKEY"@ {
        let owner = field(response, "LOGIN"@)->Ok_0;
        let key = field(response, "KEY"@)->Ok_0;
        let at = user_index(accounts.users, owner)->0;
        crate::account::lemma_user_index(accounts.users, owner);
        lemma_user_index_update(
            accounts.users,
            at,
            UserView { ssh_keys: accounts.users[at].ssh_keys.push(key), ..accounts.users[at] },
            login,
        );
    }
}

/// The users of the accounts that accepted lines add up to are those that
/// an `ADDUSER` line among them describes.
pub proof fn lemma_fold_users(lines: Seq<Seq<char>>, login: Seq<char>)
    requires
        accounts_fold(lines) is Ok,
    ensures
        accounts_fold(lines)->Ok_0.has_user(login) <==> exists|i: int|
            0 <= i < lines.len() && adds_user(#[trigger] lines[i], login),
    decreases lines.len(),
{
    if lines.len() == 0 {
        assert(user_index(Seq::<UserView>::empty(), login) is None);
    } else {
        let init = lines.drop_last();
        let before = accounts_fold(init)->Ok_0;
        lemma_fold_users(init, login);
        lemma_step_users(before, lines.last(), login);
        if accounts_fold(lines)->Ok_0.has_user(login) {
            if before.has_user(login) {
                let i = choose|i: int| 0 <= i < init.len() && adds_user(#[trigger] init[i], login);
                assert(lines[i] == init[i]);
            } else {
                assert(adds_user(lines[lines.len() - 1], login));
            }
        }
        if exists|i: int| 0 <= i < lines.len() && adds_user(#[trigger] lines[i], login) {
            let i = choose|i: int| 0 <= i < lines.len() && adds_user(#[trigger] lines[i], login);
            if i < init.len() {
                assert(init[i] == lines[i]);
            }
        }
    }
}

/// A second `ADDUSER` line for a login is a duplicate: where the lines so
/// far were accepted and one of them is an `ADDUSER` line for the login, one
/// more `ADDUSER` line for it fails with `TmcdDuplicateUser`, and so does the
/// whole reply, whatever follows.
pub proof fn lemma_second_adduser_is_duplicate(
    earlier: Seq<Seq<char>>,
    line: Seq<char>,
    later: Seq<Seq<char>>,
    login: Seq<char>,
    root: UserView,
)
    requires
        accounts_fold(earlier) is Ok,
        exists|i: int| 0 <= i < earlier.len() && adds_user(#[trigger] earlier[i], login),
        adds_user(line, login),
    ensures
        accounts_of(earlier.push(line) + later, root) == Err::<AccountsView, ErrorView>(
            ErrorView::TmcdDuplicateUser { login },
        ),
{
    lemma_fold_users(earlier, login);
    let failing = earlier.push(line);
    assert(failing.drop_last() =~= earlier);
    let all = failing + later;
    assert(all.subrange(0, failing.len() as int) =~= failing);
    lemma_accounts_fold_fails(all, failing.len() as int);
}

/// A `PUBKEY` line for a login that was never added is refused: where the
/// lines so far were accepted and none of them is an `ADDUSER` line for the
/// login, a `PUBKEY` line for it fails with `TmcdNoSuchUser`, and so does the
/// whole reply, whatever follows.
pub proof fn lemma_pubkey_needs_adduser(
    earlier: Seq<Seq<char>>,
    line: Seq<char>,
    later: Seq<Seq<char>>,
    login: Seq<char>,
    root: UserView,
)
    requires
        accounts_fold(earlier) is Ok,
        forall|i: int| 0 <= i < earlier.len() ==> !adds_user(#[trigger] earlier[i], login),
        adds_key(line, login),
    ensures
        accounts_of(earlier.push(line) + later, root) == Err::<AccountsView, ErrorView>(
            ErrorView::TmcdNoSuchUser { login },
        ),
{
    lemma_directives_differ();
    lemma_fold_users(earlier, login);
    let failing = earlier.push(line);
    assert(failing.drop_last() =~= earlier);
    let all = failing + later;
    assert(all.subrange(0, failing.len() as int) =~= failing);
    lemma_accounts_fold_fails(all, failing.len() as int);
}

} // verus!
