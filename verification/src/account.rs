//! Account records: the users and groups that the controller asks for.

use vstd::prelude::*;
use vstd::hash_map::StringHashMap;
use vstd::string::StringExecFns;
use crate::error::{Error, ErrorView};
use crate::system::{
    is_nul_free, lookup_group_gid, lookup_user_by_name, lookup_user_by_uid, lookup_user_groups, nul_free, Passwd,
};
use crate::text::{
    copy_strings, decimal, decimal_text, file_name, join, joined, lower_text, path_file_name, str_eq,
    to_ascii_lowercase, views,
};

verus! {

/// Type of a UID.
pub type Uid = u16;

/// Type of a GID.
pub type Gid = u16;

/// A user account.
#[derive(Debug, Clone)]
pub struct User {
    /// UNIX login.
    login: String,
    /// UID.
    uid: Uid,
    /// Primary group ID.
    gid: Gid,
    /// Whether the user has root access.
    root: bool,
    /// Home directory.
    home: String,
    /// SSH public keys, each a line of `authorized_keys`.
    ssh_keys: Vec<String>,
    /// Login shell, by the name of its executable.
    shell: String,
    /// Opaque serial number, which changes when the account does.
    serial: String,
}

/// The mathematical value of a [`User`].
pub ghost struct UserView {
    pub login: Seq<char>,
    pub uid: Uid,
    pub gid: Gid,
    pub root: bool,
    pub home: Seq<char>,
    pub ssh_keys: Seq<Seq<char>>,
    pub shell: Seq<char>,
    pub serial: Seq<char>,
}

impl View for User {
    type V = UserView;

    closed spec fn view(&self) -> UserView {
        UserView {
            login: self.login@,
            uid: self.uid,
            gid: self.gid,
            root: self.root,
            home: self.home@,
            ssh_keys: views(self.ssh_keys@),
            shell: self.shell@,
            serial: self.serial@,
        }
    }
}

impl User {
    /// Create a new user account.
    ///
    /// This does not actually create the account in the system. The user
    /// has no root access and no keys, the home `/users/<login>` and the
    /// shell `bash`.
    pub fn new(login: String, uid: Uid, gid: Gid, serial: String) -> (r: Self)
        ensures
            r@ == (UserView {
                login: login@,
                uid,
                gid,
                root: false,
                home: "/users/"@ + login@,
                ssh_keys: Seq::empty(),
                shell: "bash"@,
                serial: serial@,
            }),
    {
        let mut home = "/users/".to_owned();
        home.append(login.as_str());
        let r = Self {
            login,
            uid,
            gid,
            root: false,
            home,
            ssh_keys: Vec::new(),
            shell: "bash".to_owned(),
            serial,
        };
        assert(views(r.ssh_keys@) =~= Seq::empty());
        r
    }

    /// Add an SSH key.
    ///
    /// A `public_key` is a line in `authorized_keys`.
    pub fn add_ssh_key(&mut self, public_key: String) -> (r: &mut Self)
        ensures
            r@ == (UserView { ssh_keys: old(self)@.ssh_keys.push(public_key@), ..old(self)@ }),
            *final(self) == *final(r),
    {
        let ghost before = views(self.ssh_keys@);
        self.ssh_keys.push(public_key);
        assert(views(self.ssh_keys@) =~= before.push(public_key@));
        self
    }

    /// Set whether the user has root privileges.
    pub fn root(&mut self, root: bool) -> (r: &mut Self)
        ensures
            r@ == (UserView { root, ..old(self)@ }),
            *final(self) == *final(r),
    {
        self.root = root;
        self
    }

    /// Set the user's home.
    pub fn home(&mut self, home: String) -> (r: &mut Self)
        ensures
            r@ == (UserView { home: home@, ..old(self)@ }),
            *final(self) == *final(r),
    {
        self.home = home;
        self
    }

    /// Set the user's login shell.
    pub fn shell(&mut self, shell: String) -> (r: &mut Self)
        ensures
            r@ == (UserView { shell: shell@, ..old(self)@ }),
            *final(self) == *final(r),
    {
        self.shell = shell;
        self
    }

    /// The login.
    pub fn login(&self) -> (r: &str)
        ensures
            r@ == self@.login,
    {
        self.login.as_str()
    }

    /// The UID.
    pub fn uid(&self) -> (r: Uid)
        ensures
            r == self@.uid,
    {
        self.uid
    }

    /// The primary group ID.
    pub fn gid(&self) -> (r: Gid)
        ensures
            r == self@.gid,
    {
        self.gid
    }

    /// Whether the user has root privileges.
    pub fn is_root(&self) -> (r: bool)
        ensures
            r == self@.root,
    {
        self.root
    }

    /// The home directory.
    pub fn home_dir(&self) -> (r: &str)
        ensures
            r@ == self@.home,
    {
        self.home.as_str()
    }

    /// The SSH public keys, in the order in which they were added.
    pub fn ssh_keys(&self) -> (r: &Vec<String>)
        ensures
            views(r@) == self@.ssh_keys,
    {
        &self.ssh_keys
    }

    /// The name of the login shell.
    pub fn login_shell(&self) -> (r: &str)
        ensures
            r@ == self@.shell,
    {
        self.shell.as_str()
    }

    /// The opaque serial number.
    pub fn serial(&self) -> (r: &str)
        ensures
            r@ == self@.serial,
    {
        self.serial.as_str()
    }

    /// A copy of the user.
    pub fn duplicate(&self) -> (r: User)
        ensures
            r@ == self@,
    {
        User {
            login: self.login.clone(),
            uid: self.uid,
            gid: self.gid,
            root: self.root,
            home: self.home.clone(),
            ssh_keys: copy_strings(&self.ssh_keys),
            shell: self.shell.clone(),
            serial: self.serial.clone(),
        }
    }
}

/// A group account.
#[derive(Debug, Clone)]
pub struct Group {
    /// Name.
    name: String,
    /// GID.
    gid: Gid,
}

/// The mathematical value of a [`Group`].
pub ghost struct GroupView {
    pub name: Seq<char>,
    pub gid: Gid,
}

impl View for Group {
    type V = GroupView;

    closed spec fn view(&self) -> GroupView {
        GroupView { name: self.name@, gid: self.gid }
    }
}

impl Group {
    /// Create a new group.
    ///
    /// This does not actually create the group in the system.
    pub fn new(name: String, gid: Gid) -> (r: Self)
        ensures
            r@ == (GroupView { name: name@, gid }),
    {
        Self { name, gid }
    }

    /// The name.
    pub fn name(&self) -> (r: &str)
        ensures
            r@ == self@.name,
    {
        self.name.as_str()
    }

    /// The GID.
    pub fn gid(&self) -> (r: Gid)
        ensures
            r == self@.gid,
    {
        self.gid
    }

    /// A copy of the group.
    pub fn duplicate(&self) -> (r: Group)
        ensures
            r@ == self@,
    {
        Group { name: self.name.clone(), gid: self.gid }
    }
}

/// The position of the first user with the given login, if there is one.
pub open spec fn user_index(users: Seq<UserView>, login: Seq<char>) -> Option<int>
    decreases users.len(),
{
    if users.len() == 0 {
        None
    } else if user_index(users.drop_last(), login) is Some {
        user_index(users.drop_last(), login)
    } else if users.last().login == login {
        Some(users.len() - 1)
    } else {
        None
    }
}

/// The position of the first group with the given name, if there is one.
pub open spec fn group_index(groups: Seq<GroupView>, name: Seq<char>) -> Option<int>
    decreases groups.len(),
{
    if groups.len() == 0 {
        None
    } else if group_index(groups.drop_last(), name) is Some {
        group_index(groups.drop_last(), name)
    } else if groups.last().name == name {
        Some(groups.len() - 1)
    } else {
        None
    }
}

/// `user_index` finds a user with the login, and the first one, exactly
/// where one exists.
pub proof fn lemma_user_index(users: Seq<UserView>, login: Seq<char>)
    ensures
        match user_index(users, login) {
            Some(i) => 0 <= i < users.len() && users[i].login == login && forall|j: int|
                0 <= j < i ==> users[j].login != login,
            None => forall|j: int| 0 <= j < users.len() ==> users[j].login != login,
        },
    decreases users.len(),
{
    if users.len() > 0 {
        let init = users.drop_last();
        lemma_user_index(init, login);
        assert(forall|j: int| 0 <= j < init.len() ==> init[j] == users[j]);
    }
}

/// `group_index` finds a group with the name, and the first one, exactly
/// where one exists.
pub proof fn lemma_group_index(groups: Seq<GroupView>, name: Seq<char>)
    ensures
        match group_index(groups, name) {
            Some(i) => 0 <= i < groups.len() && groups[i].name == name && forall|j: int|
                0 <= j < i ==> groups[j].name != name,
            None => forall|j: int| 0 <= j < groups.len() ==> groups[j].name != name,
        },
    decreases groups.len(),
{
    if groups.len() > 0 {
        let init = groups.drop_last();
        lemma_group_index(init, name);
        assert(forall|j: int| 0 <= j < init.len() ==> init[j] == groups[j]);
    }
}

/// The mathematical value of [`Accounts`]: the users and the groups, each
/// in the order in which they were added.
pub ghost struct AccountsView {
    pub users: Seq<UserView>,
    pub groups: Seq<GroupView>,
}

impl AccountsView {
    /// No users and no groups.
    pub open spec fn empty() -> AccountsView {
        AccountsView { users: Seq::empty(), groups: Seq::empty() }
    }

    /// Whether no login and no group name occurs twice.
    pub open spec fn wf(self) -> bool {
        &&& forall|i: int, j: int|
            0 <= i < j < self.users.len() ==> self.users[i].login != self.users[j].login
        &&& forall|i: int, j: int|
            0 <= i < j < self.groups.len() ==> self.groups[i].name != self.groups[j].name
    }

    /// Whether a user with the login is present.
    pub open spec fn has_user(self, login: Seq<char>) -> bool {
        user_index(self.users, login) is Some
    }

    /// Whether a group with the name is present.
    pub open spec fn has_group(self, name: Seq<char>) -> bool {
        group_index(self.groups, name) is Some
    }

    /// The accounts with one more user.
    pub open spec fn with_user(self, user: UserView) -> AccountsView {
        AccountsView { users: self.users.push(user), ..self }
    }

    /// The accounts with one more group.
    pub open spec fn with_group(self, group: GroupView) -> AccountsView {
        AccountsView { groups: self.groups.push(group), ..self }
    }

    /// The accounts with one more key for the user with the login.
    pub open spec fn with_key(self, login: Seq<char>, key: Seq<char>) -> AccountsView
        recommends
            self.has_user(login),
    {
        let i = user_index(self.users, login).unwrap();
        AccountsView {
            users: self.users.update(
                i,
                UserView { ssh_keys: self.users[i].ssh_keys.push(key), ..self.users[i] },
            ),
            ..self
        }
    }

    /// The accounts in which `user` stands for its login: in the place of
    /// the user that had the login, or else at the end.
    pub open spec fn with_user_replaced(self, user: UserView) -> AccountsView {
        match user_index(self.users, user.login) {
            Some(i) => AccountsView { users: self.users.update(i, user), ..self },
            None => self.with_user(user),
        }
    }
}

/// The values of a list of users.
pub open spec fn user_views(users: Seq<User>) -> Seq<UserView> {
    Seq::new(users.len(), |i: int| users[i]@)
}

/// The values of a list of groups.
pub open spec fn group_views(groups: Seq<Group>) -> Seq<GroupView> {
    Seq::new(groups.len(), |i: int| groups[i]@)
}

/// Account information returned by the controller: users by login and
/// groups by name, none of them twice.
#[derive(Debug, Clone)]
pub struct Accounts {
    /// Users to be configured.
    users: Vec<User>,
    /// Groups to be configured.
    groups: Vec<Group>,
}

impl View for Accounts {
    type V = AccountsView;

    closed spec fn view(&self) -> AccountsView {
        AccountsView { users: user_views(self.users@), groups: group_views(self.groups@) }
    }
}

impl Accounts {
    /// No users and no groups.
    pub fn new() -> (r: Self)
        ensures
            r@ == AccountsView::empty(),
            r@.wf(),
    {
        let r = Self { users: Vec::new(), groups: Vec::new() };
        assert(r@.users =~= Seq::empty());
        assert(r@.groups =~= Seq::empty());
        r
    }

    /// The users, in the order in which they were added.
    pub fn users(&self) -> (r: &Vec<User>)
        ensures
            user_views(r@) == self@.users,
    {
        &self.users
    }

    /// The groups, in the order in which they were added.
    pub fn groups(&self) -> (r: &Vec<Group>)
        ensures
            group_views(r@) == self@.groups,
    {
        &self.groups
    }

    /// The position of the user with the login, if there is one.
    pub fn find_user(&self, login: &str) -> (r: Option<usize>)
        ensures
            match r {
                Some(i) => user_index(self@.users, login@) == Some(i as int),
                None => user_index(self@.users, login@) is None,
            },
    {
        let mut i: usize = 0;
        while i < self.users.len()
            invariant
                i <= self.users@.len(),
                forall|j: int| 0 <= j < i ==> self.users@[j]@.login != login@,
            decreases self.users@.len() - i,
        {
            if crate::text::str_eq(self.users[i].login(), login) {
                proof {
                    lemma_user_index(self@.users, login@);
                    assert(forall|j: int|
                        0 <= j < self.users@.len() ==> self@.users[j] == self.users@[j]@);
                    assert(self@.users[i as int].login == login@);
                }
                return Some(i);
            }
            i += 1;
        }
        proof {
            lemma_user_index(self@.users, login@);
            assert(forall|j: int|
                0 <= j < self.users@.len() ==> self@.users[j] == self.users@[j]@);
        }
        None
    }

    /// The position of the group with the name, if there is one.
    pub fn find_group(&self, name: &str) -> (r: Option<usize>)
        ensures
            match r {
                Some(i) => group_index(self@.groups, name@) == Some(i as int),
                None => group_index(self@.groups, name@) is None,
            },
    {
        let mut i: usize = 0;
        while i < self.groups.len()
            invariant
                i <= self.groups@.len(),
                forall|j: int| 0 <= j < i ==> self.groups@[j]@.name != name@,
            decreases self.groups@.len() - i,
        {
            if crate::text::str_eq(self.groups[i].name(), name) {
                proof {
                    lemma_group_index(self@.groups, name@);
                    assert(forall|j: int|
                        0 <= j < self.groups@.len() ==> self@.groups[j] == self.groups@[j]@);
                    assert(self@.groups[i as int].name == name@);
                }
                return Some(i);
            }
            i += 1;
        }
        proof {
            lemma_group_index(self@.groups, name@);
            assert(forall|j: int|
                0 <= j < self.groups@.len() ==> self@.groups[j] == self.groups@[j]@);
        }
        None
    }

    /// Adds a user, unless a user with its login is present. Returns
    /// whether the user was added.
    pub fn add_user(&mut self, user: User) -> (added: bool)
        ensures
            added == !old(self)@.has_user(user@.login),
            final(self)@ == if added {
                old(self)@.with_user(user@)
            } else {
                old(self)@
            },
            old(self)@.wf() ==> final(self)@.wf(),
    {
        proof {
            lemma_user_index(self@.users, user@.login);
        }
        if self.find_user(user.login()).is_some() {
            return false;
        }
        let ghost before = self@;
        self.users.push(user);
        proof {
            assert(self@.users =~= before.users.push(user@));
            assert(self@.groups =~= before.groups);
        }
        true
    }

    /// Adds a group, unless a group with its name is present. Returns
    /// whether the group was added.
    pub fn add_group(&mut self, group: Group) -> (added: bool)
        ensures
            added == !old(self)@.has_group(group@.name),
            final(self)@ == if added {
                old(self)@.with_group(group@)
            } else {
                old(self)@
            },
            old(self)@.wf() ==> final(self)@.wf(),
    {
        proof {
            lemma_group_index(self@.groups, group@.name);
        }
        if self.find_group(group.name()).is_some() {
            return false;
        }
        let ghost before = self@;
        self.groups.push(group);
        proof {
            assert(self@.groups =~= before.groups.push(group@));
            assert(self@.users =~= before.users);
        }
        true
    }

    /// Adds a key to the user with the login, if there is one. Returns
    /// whether there is.
    pub fn add_key(&mut self, login: &str, key: String) -> (added: bool)
        ensures
            added == old(self)@.has_user(login@),
            final(self)@ == if added {
                old(self)@.with_key(login@, key@)
            } else {
                old(self)@
            },
            old(self)@.wf() ==> final(self)@.wf(),
    {
        proof {
            lemma_user_index(self@.users, login@);
        }
        let ghost before = self@;
        match self.find_user(login) {
            Some(i) => {
                let mut user = self.users[i].duplicate();
                user.add_ssh_key(key);
                self.users.set(i, user);
                proof {
                    assert(self@.users =~= before.users.update(i as int, user@));
                    assert(self@.groups =~= before.groups);
                }
                true
            },
            None => false,
        }
    }

    /// Puts a user in the place of the one that has its login, or at the
    /// end where none has.
    pub fn set_user(&mut self, user: User)
        ensures
            final(self)@ == old(self)@.with_user_replaced(user@),
            old(self)@.wf() ==> final(self)@.wf(),
    {
        proof {
            lemma_user_index(self@.users, user@.login);
        }
        let ghost before = self@;
        match self.find_user(user.login()) {
            Some(i) => {
                self.users.set(i, user);
                proof {
                    assert(self@.users =~= before.users.update(i as int, user@));
                    assert(self@.groups =~= before.groups);
                }
            },
            None => {
                self.users.push(user);
                proof {
                    assert(self@.users =~= before.users.push(user@));
                    assert(self@.groups =~= before.groups);
                }
            },
        }
    }
}

/// The fallback shell.
///
/// `/bin/sh` is the only shell that is mostly portable across systems.
/// Other shells may likely not exist.
pub open spec fn fallback_shell() -> Seq<char> {
    "/bin/sh"@
}

/// The allowed login shells that the lines of a shells file add up to: for
/// each name of an executable, the first path that ends in it. `None` where
/// a line has no file name.
pub open spec fn shells_of(lines: Seq<Seq<char>>) -> Option<Map<Seq<char>, Seq<char>>>
    decreases lines.len(),
{
    if lines.len() == 0 {
        Some(Map::empty())
    } else {
        match (shells_of(lines.drop_last()), path_file_name(lines.last())) {
            (Some(shells), Some(name)) => if shells.contains_key(name) {
                Some(shells)
            } else {
                Some(shells.insert(name, lines.last()))
            },
            _ => None,
        }
    }
}

/// The group for admins where none is configured: `wheel` where that
/// group exists, else `sudo` where that one does, else `root`.
pub open spec fn found_admin_group(wheel: bool, sudo: bool) -> Seq<char> {
    if wheel {
        "wheel"@
    } else if sudo {
        "sudo"@
    } else {
        "root"@
    }
}

/// The mathematical value of a [`SystemConfiguration`].
pub ghost struct SystemView {
    /// The path of each allowed login shell, by the name of its executable.
    pub shells: Map<Seq<char>, Seq<char>>,
    /// Group name for admins.
    pub admin_group: Seq<char>,
}

/// System account configurations.
pub struct SystemConfiguration {
    /// Cache of allowed login shells.
    ///
    /// Different systems place shell executables under different
    /// directories, and we cannot make assumptions of their full paths.
    shells: StringHashMap<String>,
    /// Group name for admins.
    ///
    /// Normally this would be "wheel" or "sudo".
    admin_group: String,
}

impl View for SystemConfiguration {
    type V = SystemView;

    closed spec fn view(&self) -> SystemView {
        SystemView {
            shells: Map::new(
                |name: Seq<char>| self.shells@.contains_key(name),
                |name: Seq<char>| self.shells@[name]@,
            ),
            admin_group: self.admin_group@,
        }
    }
}

/// The group for admins where none is configured, given whether the
/// groups `wheel` and `sudo` exist.
pub fn find_admin_group(wheel: bool, sudo: bool) -> (r: String)
    ensures
        r@ == found_admin_group(wheel, sudo),
{
    if wheel {
        "wheel".to_owned()
    } else if sudo {
        "sudo".to_owned()
    } else {
        "root".to_owned()
    }
}

impl SystemConfiguration {
    /// The configuration with the allowed shells that the lines of the
    /// shells file name and the given group for admins.
    ///
    /// Fails with `InvalidShellsFile` exactly where a line has no file name.
    pub fn with_admin_group(shells_file: &Vec<String>, admin_group: String) -> (r: Result<
        Self,
        Error,
    >)
        ensures
            match shells_of(views(shells_file@)) {
                Some(shells) => r matches Ok(system) && system@ == (SystemView {
                    shells,
                    admin_group: admin_group@,
                }),
                None => r matches Err(e) && e@ == ErrorView::InvalidShellsFile,
            },
    {
        let mut shells: StringHashMap<String> = StringHashMap::new();
        let ghost lines = views(shells_file@);
        let ghost mut so_far: Map<Seq<char>, Seq<char>> = Map::empty();
        let mut i: usize = 0;
        assert(lines.subrange(0, 0) =~= Seq::empty());
        while i < shells_file.len()
            invariant
                i <= shells_file@.len(),
                lines == views(shells_file@),
                shells_of(lines.subrange(0, i as int)) == Some(so_far),
                so_far == Map::new(
                    |name: Seq<char>| shells@.contains_key(name),
                    |name: Seq<char>| shells@[name]@,
                ),
            decreases shells_file@.len() - i,
        {
            let ghost longer = lines.subrange(0, i + 1);
            proof {
                assert(longer.drop_last() =~= lines.subrange(0, i as int));
                assert(longer.last() == shells_file@[i as int]@);
            }
            let name = match file_name(shells_file[i].as_str()) {
                Some(name) => name,
                None => {
                    proof {
                        lemma_shells_of_fails(lines, i + 1);
                    }
                    return Err(Error::InvalidShellsFile);
                },
            };
            if !shells.contains_key(name.as_str()) {
                shells.insert(name, shells_file[i].clone());
                proof {
                    so_far = so_far.insert(name@, shells_file@[i as int]@);
                    assert(so_far =~= Map::new(
                        |name: Seq<char>| shells@.contains_key(name),
                        |name: Seq<char>| shells@[name]@,
                    ));
                }
            }
            i += 1;
        }
        assert(lines.subrange(0, i as int) =~= lines);
        Ok(Self { shells, admin_group })
    }

    /// The configuration with the allowed shells that the lines of the
    /// shells file name. The group for admins is the configured one; where
    /// none is configured the system's groups are asked for `wheel` and
    /// `sudo`, and the answer decides between them and `root`.
    pub fn new(admin_group: Option<String>, shells_file: &Vec<String>) -> (r: Result<Self, Error>)
        ensures
            match shells_of(views(shells_file@)) {
                Some(shells) => r matches Ok(system) && system@.shells == shells && match admin_group {
                    Some(group) => system@.admin_group == group@,
                    None => exists|wheel: bool, sudo: bool|
                        system@.admin_group == found_admin_group(wheel, sudo),
                },
                None => r matches Err(e) && e@ == ErrorView::InvalidShellsFile,
            },
    {
        let group = match admin_group {
            Some(group) => group,
            None => {
                let wheel = lookup_group_gid("wheel").is_some();
                let sudo = lookup_group_gid("sudo").is_some();
                find_admin_group(wheel, sudo)
            },
        };
        Self::with_admin_group(shells_file, group)
    }

    /// The path of an allowed login shell, by the name of its executable.
    pub fn shell_path(&self, name: &str) -> (r: Option<&str>)
        ensures
            match r {
                Some(path) => self@.shells.contains_key(name@) && path@ == self@.shells[name@],
                None => !self@.shells.contains_key(name@),
            },
    {
        match self.shells.get(name) {
            Some(path) => Some(path.as_str()),
            None => None,
        }
    }

    /// Group name for admins.
    pub fn admin_group(&self) -> (r: &str)
        ensures
            r@ == self@.admin_group,
    {
        self.admin_group.as_str()
    }
}

/// Once a line has no file name, the lines after it change nothing.
pub proof fn lemma_shells_of_fails(lines: Seq<Seq<char>>, failed: int)
    requires
        0 <= failed <= lines.len(),
        shells_of(lines.subrange(0, failed)) is None,
    ensures
        shells_of(lines) is None,
    decreases lines.len(),
{
    if failed == lines.len() {
        assert(lines.subrange(0, failed) =~= lines);
    } else {
        let init = lines.drop_last();
        assert(init.subrange(0, failed) =~= lines.subrange(0, failed));
        lemma_shells_of_fails(init, failed);
    }
}

/// An external tool that changes the system's accounts.
#[derive(Debug, Clone, Copy, PartialEq, Eq, Structural)]
pub enum Tool {
    /// Creates a user.
    UserAdd,
    /// Modifies a user.
    UserMod,
    /// Creates a group.
    GroupAdd,
}

impl Tool {
    /// The name of the tool's executable.
    pub open spec fn program_name(self) -> Seq<char> {
        match self {
            Tool::UserAdd => "useradd"@,
            Tool::UserMod => "usermod"@,
            Tool::GroupAdd => "groupadd"@,
        }
    }

    /// The error that stands for a failure of the tool.
    pub open spec fn failure_of(self) -> ErrorView {
        match self {
            Tool::UserAdd => ErrorView::UserCreation,
            Tool::UserMod => ErrorView::UserUpdate,
            Tool::GroupAdd => ErrorView::GroupCreation,
        }
    }

    /// The name of the tool's executable.
    pub fn program(&self) -> (r: &'static str)
        ensures
            r@ == self.program_name(),
    {
        match self {
            Tool::UserAdd => "useradd",
            Tool::UserMod => "usermod",
            Tool::GroupAdd => "groupadd",
        }
    }

    /// What the end of a run of the tool means: success where it exited
    /// with status zero, else the error that stands for its failure. What
    /// the tool printed is of no account.
    pub fn finished(&self, success: bool) -> (r: Result<(), Error>)
        ensures
            success ==> r is Ok,
            !success ==> (r matches Err(e) && e@ == self.failure_of()),
    {
        if success {
            Ok(())
        } else {
            match self {
                Tool::UserAdd => Err(Error::UserCreation),
                Tool::UserMod => Err(Error::UserUpdate),
                Tool::GroupAdd => Err(Error::GroupCreation),
            }
        }
    }
}

/// A run of an external tool that is to be made.
#[derive(Debug)]
pub struct Invocation {
    /// The tool.
    pub tool: Tool,
    /// Its arguments.
    pub args: Vec<String>,
}

/// The mathematical value of an [`Invocation`].
pub ghost struct InvocationView {
    pub tool: Tool,
    pub args: Seq<Seq<char>>,
}

impl View for Invocation {
    type V = InvocationView;

    open spec fn view(&self) -> InvocationView {
        InvocationView { tool: self.tool, args: views(self.args@) }
    }
}

/// The `authorized_keys` file that is to be written for a user: below the
/// directory `.ssh` of `home`, with `contents`, both owned by `uid` and `gid`.
#[derive(Debug)]
pub struct KeyFile {
    /// The user's home.
    pub home: String,
    /// Everything that the file holds.
    pub contents: String,
    /// The owner of the directory and of the file.
    pub uid: Uid,
    /// The group of the directory and of the file.
    pub gid: Gid,
}

/// The mathematical value of a [`KeyFile`].
pub ghost struct KeyFileView {
    pub home: Seq<char>,
    pub contents: Seq<char>,
    pub uid: Uid,
    pub gid: Gid,
}

impl View for KeyFile {
    type V = KeyFileView;

    open spec fn view(&self) -> KeyFileView {
        KeyFileView { home: self.home@, contents: self.contents@, uid: self.uid, gid: self.gid }
    }
}

/// What is to be done for a user: run the tool, and where it succeeds,
/// write the keys.
#[derive(Debug)]
pub struct UserPlan {
    /// The tool to run.
    pub command: Invocation,
    /// The keys to write once the tool has succeeded.
    pub keys: KeyFile,
    /// Whether the user's preferred shell is an allowed one. Where it is
    /// not, the fallback shell is used in its place.
    pub shell_found: bool,
}

/// The mathematical value of a [`UserPlan`].
pub ghost struct UserPlanView {
    pub command: InvocationView,
    pub keys: KeyFileView,
    pub shell_found: bool,
}

impl View for UserPlan {
    type V = UserPlanView;

    open spec fn view(&self) -> UserPlanView {
        UserPlanView { command: self.command@, keys: self.keys@, shell_found: self.shell_found }
    }
}

/// What the system knows of a login before anything is done for it.
#[derive(Debug)]
pub enum LoginState {
    /// A user with the login exists.
    Present {
        /// Its UID.
        uid: u32,
        /// The names of the groups it is a member of; `None` where the
        /// system could not tell.
        groups: Option<Vec<String>>,
    },
    /// No user with the login exists.
    Absent {
        /// The login that holds the UID that the record asks for, if one
        /// does.
        uid_holder: Option<String>,
    },
}

/// The mathematical value of a [`LoginState`].
pub ghost enum LoginStateView {
    Present { uid: u32, groups: Option<Seq<Seq<char>>> },
    Absent { uid_holder: Option<Seq<char>> },
}

impl View for LoginState {
    type V = LoginStateView;

    open spec fn view(&self) -> LoginStateView {
        match *self {
            LoginState::Present { uid, groups } => LoginStateView::Present {
                uid,
                groups: match groups {
                    Some(names) => Some(views(names@)),
                    None => None,
                },
            },
            LoginState::Absent { uid_holder } => LoginStateView::Absent {
                uid_holder: match uid_holder {
                    Some(login) => Some(login@),
                    None => None,
                },
            },
        }
    }
}

/// The two comment lines and the blank line that every `authorized_keys`
/// file starts with.
pub open spec fn keys_banner() -> Seq<char> {
    "# This file was automatically generated by miniond\n"@
        + "# Please add your keys using the testbed web interface.\n\n"@
}

/// What an `authorized_keys` file holds: the banner, then each key on a
/// line of its own.
pub open spec fn keys_text(keys: Seq<Seq<char>>) -> Seq<char>
    decreases keys.len(),
{
    if keys.len() == 0 {
        keys_banner()
    } else {
        keys_text(keys.drop_last()) + keys.last() + "\n"@
    }
}

/// The `authorized_keys` file of a user.
pub open spec fn key_file(user: UserView) -> KeyFileView {
    KeyFileView {
        home: user.home,
        contents: keys_text(user.ssh_keys),
        uid: user.uid,
        gid: user.gid,
    }
}

/// The groups that a user stays a member of: all that it is in, but for
/// the group for admins where the user has no root access.
pub open spec fn kept_groups(groups: Seq<Seq<char>>, root: bool, admin_group: Seq<char>) -> Seq<
    Seq<char>,
>
    decreases groups.len(),
{
    if groups.len() == 0 {
        Seq::empty()
    } else {
        let earlier = kept_groups(groups.drop_last(), root, admin_group);
        if root || groups.last() != admin_group {
            earlier.push(groups.last())
        } else {
            earlier
        }
    }
}

/// The path of the shell that a user gets: that of its preferred shell
/// where that is an allowed one, else the fallback shell.
pub open spec fn resolved_shell(user: UserView, system: SystemView) -> Seq<char> {
    if system.shells.contains_key(user.shell) {
        system.shells[user.shell]
    } else {
        fallback_shell()
    }
}

/// The arguments with which the tool that modifies users is run: the
/// shell, and the groups that the user stays in.
pub open spec fn usermod_args(user: UserView, system: SystemView, groups: Seq<Seq<char>>) -> Seq<
    Seq<char>,
> {
    seq![
        "-s"@,
        resolved_shell(user, system),
        "-G"@,
        joined(kept_groups(groups, user.root, system.admin_group), ","@),
        user.login,
    ]
}

/// The arguments with which the tool that creates users is run: any name
/// is accepted, the home is created, UID, GID and shell are as the record
/// says, no group of the user's own is made, and a user with root access
/// joins the group for admins.
pub open spec fn useradd_args(user: UserView, system: SystemView) -> Seq<Seq<char>> {
    seq![
        "--badname"@,
        "-m"@,
        "-d"@,
        user.home,
        "-u"@,
        decimal_text(user.uid as nat),
        "-g"@,
        decimal_text(user.gid as nat),
        "-s"@,
        resolved_shell(user, system),
        "-N"@,
        user.login,
    ] + if user.root {
        seq!["-G"@, system.admin_group]
    } else {
        Seq::empty()
    }
}

/// What is to be done for a user, given what the system knows of its
/// login.
///
/// - A user with the login and another UID: `UidChangeUnsupported`.
/// - A user with the login and the same UID is modified; where the system
///   could not tell its groups this fails with `UserUpdate`.
/// - No user with the login, and the UID held by another: `DuplicateUid`.
/// - No user with the login and the UID free: the user is created.
pub open spec fn user_plan(user: UserView, system: SystemView, state: LoginStateView) -> Result<
    UserPlanView,
    ErrorView,
> {
    let shell_found = system.shells.contains_key(user.shell);
    match state {
        LoginStateView::Present { uid, groups } => if uid != user.uid {
            Err(ErrorView::UidChangeUnsupported)
        } else {
            match groups {
                Some(groups) => Ok(
                    UserPlanView {
                        command: InvocationView {
                            tool: Tool::UserMod,
                            args: usermod_args(user, system, groups),
                        },
                        keys: key_file(user),
                        shell_found,
                    },
                ),
                None => Err(ErrorView::UserUpdate),
            }
        },
        LoginStateView::Absent { uid_holder } => match uid_holder {
            Some(existing_login) => Err(
                ErrorView::DuplicateUid { login: user.login, uid: user.uid, existing_login },
            ),
            None => Ok(
                UserPlanView {
                    command: InvocationView { tool: Tool::UserAdd, args: useradd_args(user, system) },
                    keys: key_file(user),
                    shell_found,
                },
            ),
        },
    }
}

/// Relates the outcome of planning to its value.
pub open spec fn plan_matches(r: Result<UserPlan, Error>, expected: Result<UserPlanView, ErrorView>)
    -> bool {
    match expected {
        Ok(plan) => r matches Ok(p) && p@ == plan,
        Err(e) => r matches Err(error) && error@ == e,
    }
}

/// The groups that a user stays a member of.
fn keep_groups(groups: &Vec<String>, root: bool, admin_group: &str) -> (r: Vec<String>)
    ensures
        views(r@) == kept_groups(views(groups@), root, admin_group@),
{
    let ghost all = views(groups@);
    let mut kept: Vec<String> = Vec::new();
    let mut i: usize = 0;
    assert(all.subrange(0, 0) =~= Seq::empty());
    assert(views(kept@) =~= Seq::empty());
    while i < groups.len()
        invariant
            i <= groups@.len(),
            all == views(groups@),
            views(kept@) == kept_groups(all.subrange(0, i as int), root, admin_group@),
        decreases groups@.len() - i,
    {
        let ghost longer = all.subrange(0, i + 1);
        proof {
            assert(longer.drop_last() =~= all.subrange(0, i as int));
            assert(longer.last() == groups@[i as int]@);
        }
        if root || !str_eq(groups[i].as_str(), admin_group) {
            let ghost before = views(kept@);
            kept.push(groups[i].clone());
            assert(views(kept@) =~= before.push(groups@[i as int]@));
        }
        i += 1;
    }
    assert(all.subrange(0, i as int) =~= all);
    kept
}

impl User {
    /// The `authorized_keys` file of the user: the banner and the user's
    /// keys, owned by the user. Whatever the file held before is replaced.
    pub fn apply_authorized_keys(&self) -> (r: KeyFile)
        ensures
            r@ == key_file(self@),
    {
        let mut contents = "# This file was automatically generated by miniond\n".to_owned();
        contents.append("# Please add your keys using the testbed web interface.\n\n");
        let ghost keys = views(self.ssh_keys@);
        let mut i: usize = 0;
        assert(keys.subrange(0, 0) =~= Seq::empty());
        while i < self.ssh_keys.len()
            invariant
                i <= self.ssh_keys@.len(),
                keys == views(self.ssh_keys@),
                contents@ == keys_text(keys.subrange(0, i as int)),
            decreases self.ssh_keys@.len() - i,
        {
            let ghost longer = keys.subrange(0, i + 1);
            proof {
                assert(longer.drop_last() =~= keys.subrange(0, i as int));
                assert(longer.last() == self.ssh_keys@[i as int]@);
            }
            contents.append(self.ssh_keys[i].as_str());
            contents.append("\n");
            i += 1;
        }
        assert(keys.subrange(0, i as int) =~= keys);
        KeyFile { home: self.home.clone(), contents, uid: self.uid, gid: self.gid }
    }

    /// The path of the shell that the user gets, and whether the user's
    /// preferred shell is an allowed one. Where it is not, the path is that
    /// of the fallback shell, which is taken to exist.
    pub fn resolve_shell(&self, system: &SystemConfiguration) -> (r: (String, bool))
        ensures
            r.0@ == resolved_shell(self@, system@),
            r.1 == system@.shells.contains_key(self@.shell),
    {
        match system.shell_path(self.shell.as_str()) {
            Some(path) => (path.to_owned(), true),
            None => ("/bin/sh".to_owned(), false),
        }
    }

    /// What is to be done to bring the system's user in line with the
    /// record, given what the system knows of the login.
    ///
    /// The user account will be created or modified as needed, by the tools
    /// `useradd` and `usermod`, with the parameters that the shadow-utils
    /// and the FreeBSD implementations have in common.
    pub fn apply_to(&self, system: &SystemConfiguration, state: &LoginState) -> (r: Result<
        UserPlan,
        Error,
    >)
        ensures
            plan_matches(r, user_plan(self@, system@, state@)),
    {
        let (shell, shell_found) = self.resolve_shell(system);
        match state {
            LoginState::Present { uid, groups } => {
                if *uid != self.uid as u32 {
                    return Err(Error::UidChangeUnsupported);
                }
                let groups = match groups {
                    Some(groups) => groups,
                    None => {
                        return Err(Error::UserUpdate);
                    },
                };
                let kept = keep_groups(groups, self.root, system.admin_group());
                let mut args: Vec<String> = Vec::new();
                args.push("-s".to_owned());
                args.push(shell);
                args.push("-G".to_owned());
                args.push(join(&kept, ","));
                args.push(self.login.clone());
                proof {
                    assert(views(args@) =~= usermod_args(self@, system@, views(groups@)));
                }
                Ok(
                    UserPlan {
                        command: Invocation { tool: Tool::UserMod, args },
                        keys: self.apply_authorized_keys(),
                        shell_found,
                    },
                )
            },
            LoginState::Absent { uid_holder } => {
                match uid_holder {
                    Some(existing) => {
                        return Err(
                            Error::DuplicateUid {
                                login: self.login.clone(),
                                uid: self.uid,
                                existing_login: existing.clone(),
                            },
                        );
                    },
                    None => {},
                }
                let mut args: Vec<String> = Vec::new();
                args.push("--badname".to_owned());
                args.push("-m".to_owned());
                args.push("-d".to_owned());
                args.push(self.home.clone());
                args.push("-u".to_owned());
                args.push(decimal(self.uid as u32));
                args.push("-g".to_owned());
                args.push(decimal(self.gid as u32));
                args.push("-s".to_owned());
                args.push(shell);
                args.push("-N".to_owned());
                args.push(self.login.clone());
                if self.root {
                    args.push("-G".to_owned());
                    args.push(system.admin_group().to_owned());
                }
                proof {
                    assert(views(args@) =~= useradd_args(self@, system@));
                }
                Ok(
                    UserPlan {
                        command: Invocation { tool: Tool::UserAdd, args },
                        keys: self.apply_authorized_keys(),
                        shell_found,
                    },
                )
            },
        }
    }

    /// Asks the system what it knows of the user's login, and of its UID
    /// where the login is free.
    fn login_state(&self) -> (r: LoginState)
        ensures
            exists|entry: Option<Passwd>, groups: Option<Seq<Seq<char>>>, holder: Option<Passwd>|
                r@ == login_state_of(entry, groups, holder) && groups_asked(entry, groups),
    {
        match lookup_user_by_name(self.login.as_str()) {
            Some(found) => {
                let groups = if is_nul_free(found.name.as_str()) {
                    lookup_user_groups(found.name.as_str(), found.gid)
                } else {
                    None
                };
                let ghost names = group_names(groups);
                let ghost entry = Some(found);
                let r = LoginState::from_answers(Some(found), groups, None);
                assert(r@ == login_state_of(entry, names, None) && groups_asked(entry, names));
                r
            },
            None => {
                let holder = lookup_user_by_uid(self.uid as u32);
                let r = LoginState::from_answers(None, None, holder);
                assert(r@ == login_state_of(None, None, holder) && groups_asked(None, None));
                r
            },
        }
    }

    /// What is to be done to bring the system's user in line with the
    /// record: asks the system what it knows of the login, and decides as
    /// [`User::apply_to`] does for that answer.
    pub fn apply(&self, system: &SystemConfiguration) -> (r: Result<UserPlan, Error>)
        ensures
            exists|state: LoginStateView| plan_matches(r, user_plan(self@, system@, state)),
    {
        let state = self.login_state();
        let r = self.apply_to(system, &state);
        assert(plan_matches(r, user_plan(self@, system@, state@)));
        r
    }
}

/// The names of a list of groups, where the system gave one.
pub open spec fn group_names(groups: Option<Vec<String>>) -> Option<Seq<Seq<char>>> {
    match groups {
        Some(names) => Some(views(names@)),
        None => None,
    }
}

/// What the answers of the system say of a login. `entry` is the entry of
/// the login in the user database, `groups` the names of the groups that the
/// user of that entry is a member of, and `holder` the entry of the UID that
/// the record asks for.
///
/// With an entry the login is present, with the UID of the entry and those
/// groups. Without one it is absent, and the UID is held by the login of
/// `holder`, if there is one.
pub open spec fn login_state_of(
    entry: Option<Passwd>,
    groups: Option<Seq<Seq<char>>>,
    holder: Option<Passwd>,
) -> LoginStateView {
    match entry {
        Some(found) => LoginStateView::Present { uid: found.uid, groups },
        None => LoginStateView::Absent {
            uid_holder: match holder {
                Some(other) => Some(other.name@),
                None => None,
            },
        },
    }
}

/// Whether `groups` can be the answer to the question for the groups of
/// `entry`: the question is put only for an entry whose login holds no zero
/// byte, and without the question there is no answer.
pub open spec fn groups_asked(entry: Option<Passwd>, groups: Option<Seq<Seq<char>>>) -> bool {
    groups is Some ==> (entry matches Some(found) && nul_free(found.name@))
}

impl LoginState {
    /// What the answers of the system say of a login: the entry of the
    /// login, the groups of that entry, and the entry of the UID that the
    /// record asks for.
    pub fn from_answers(
        entry: Option<Passwd>,
        groups: Option<Vec<String>>,
        holder: Option<Passwd>,
    ) -> (r: LoginState)
        ensures
            r@ == login_state_of(entry, group_names(groups), holder),
    {
        match entry {
            Some(found) => LoginState::Present { uid: found.uid, groups },
            None => {
                let uid_holder = match holder {
                    Some(other) => Some(other.name),
                    None => None,
                };
                LoginState::Absent { uid_holder }
            },
        }
    }
}

/// The arguments with which the tool that creates groups is run: the GID,
/// and the name in lower case.
pub open spec fn groupadd_args(group: GroupView) -> Seq<Seq<char>> {
    seq!["-g"@, decimal_text(group.gid as nat), lower_text(group.name)]
}

/// What is to be done for a group, given the GID of the system's group of
/// that name, if there is one: nothing where the GIDs agree,
/// `GidChangeUnsupported` where they differ, and the group is created where
/// the system has none.
pub open spec fn group_plan(group: GroupView, existing: Option<u32>) -> Result<
    Option<InvocationView>,
    ErrorView,
> {
    match existing {
        Some(gid) => if gid == group.gid {
            Ok(None)
        } else {
            Err(ErrorView::GidChangeUnsupported)
        },
        None => Ok(Some(InvocationView { tool: Tool::GroupAdd, args: groupadd_args(group) })),
    }
}

/// Relates the outcome of planning to its value.
pub open spec fn group_plan_matches(
    r: Result<Option<Invocation>, Error>,
    expected: Result<Option<InvocationView>, ErrorView>,
) -> bool {
    match expected {
        Ok(None) => r matches Ok(None),
        Ok(Some(command)) => r matches Ok(Some(c)) && c@ == command,
        Err(e) => r matches Err(error) && error@ == e,
    }
}

impl Group {
    /// What is to be done to bring the system's group in line with the
    /// record, given the GID of the system's group of that name, if there is
    /// one.
    ///
    /// We currently do not allow changes to a group.
    pub fn apply_to(&self, existing: Option<u32>) -> (r: Result<Option<Invocation>, Error>)
        ensures
            group_plan_matches(r, group_plan(self@, existing)),
    {
        match existing {
            Some(gid) => {
                if gid != self.gid as u32 {
                    Err(Error::GidChangeUnsupported)
                } else {
                    Ok(None)
                }
            },
            None => {
                let mut args: Vec<String> = Vec::new();
                args.push("-g".to_owned());
                args.push(decimal(self.gid as u32));
                args.push(to_ascii_lowercase(self.name.as_str()));
                proof {
                    assert(views(args@) =~= groupadd_args(self@));
                }
                Ok(Some(Invocation { tool: Tool::GroupAdd, args }))
            },
        }
    }

    /// What is to be done to bring the system's group in line with the
    /// record: asks the system for the group of that name, in lower case,
    /// and decides as [`Group::apply_to`] does for that answer.
    pub fn apply(&self) -> (r: Result<Option<Invocation>, Error>)
        ensures
            exists|existing: Option<u32>| group_plan_matches(r, group_plan(self@, existing)),
    {
        let name = to_ascii_lowercase(self.name.as_str());
        let existing = lookup_group_gid(name.as_str());
        let r = self.apply_to(existing);
        assert(group_plan_matches(r, group_plan(self@, existing)));
        r
    }
}

/// The lower-case form of a text holds no ASCII capital letter.
pub proof fn lemma_lower_text(text: Seq<char>)
    ensures
        lower_text(text).len() == text.len(),
        forall|i: int| 0 <= i < text.len() ==> !('A' <= #[trigger] lower_text(text)[i] <= 'Z'),
{
    assert forall|i: int| 0 <= i < text.len() implies !('A' <= #[trigger] lower_text(text)[i]
        <= 'Z') by {
        let c = text[i];
        if 'A' <= c <= 'Z' {
            let b = c as u8;
            assert(0x41 <= b <= 0x5a);
            assert(((b + 32) as u8) as char == crate::text::lower_char(c));
        }
    }
}

/// A group is created under the lower-case form of its name, whatever
/// capital letters the name in the record holds: where the system has no
/// group of the name, the tool that creates groups is run with the GID and
/// with a name that holds no ASCII capital letter.
pub proof fn lemma_group_is_created_in_lower_case(group: GroupView)
    ensures
        group_plan(group, None) == Ok::<Option<InvocationView>, ErrorView>(
            Some(
                InvocationView {
                    tool: Tool::GroupAdd,
                    args: seq!["-g"@, decimal_text(group.gid as nat), lower_text(group.name)],
                },
            ),
        ),
        forall|i: int|
            0 <= i < lower_text(group.name).len() ==> !('A' <= #[trigger] lower_text(group.name)[i]
                <= 'Z'),
{
    lemma_lower_text(group.name);
}

/// A user whose UID in the system differs from that of the record is
/// refused with `UidChangeUnsupported`, whatever else holds of it; and as
/// the outcome is an error, nothing is run or written for it.
pub proof fn lemma_uid_change_is_refused(
    user: UserView,
    system: SystemView,
    uid: u32,
    groups: Option<Seq<Seq<char>>>,
)
    requires
        uid != user.uid,
    ensures
        user_plan(user, system, LoginStateView::Present { uid, groups }) == Err::<
            UserPlanView,
            ErrorView,
        >(ErrorView::UidChangeUnsupported),
{
}

/// Applying a record a second time creates nothing and writes the same
/// keys: once a user or a group exists as the record describes it, the user
/// is modified, not created, nothing is done for the group, and the
/// `authorized_keys` file of a plan depends on the record alone.
pub proof fn lemma_apply_is_idempotent(
    user: UserView,
    group: GroupView,
    system: SystemView,
    first: LoginStateView,
    groups: Seq<Seq<char>>,
)
    ensures
        user_plan(user, system, first) matches Ok(plan) ==> plan.keys == key_file(user),
        user_plan(
            user,
            system,
            LoginStateView::Present { uid: user.uid as u32, groups: Some(groups) },
        ) matches Ok(plan) && plan.command.tool == Tool::UserMod && plan.keys == key_file(user),
        group_plan(group, Some(group.gid as u32)) == Ok::<Option<InvocationView>, ErrorView>(None),
{
}

/// A user that is present stays present, under the same position, when a
/// user is added at the end.
pub proof fn lemma_user_index_push(users: Seq<UserView>, user: UserView, login: Seq<char>)
    ensures
        user_index(users, login) is Some ==> user_index(users.push(user), login) == user_index(
            users,
            login,
        ),
        user_index(users, login) is None ==> user_index(users.push(user), login) == if user.login
            == login {
            Some(users.len() as int)
        } else {
            None
        },
{
    assert(users.push(user).drop_last() =~= users);
}

/// Replacing a user by one of the same login changes the position of no
/// login.
pub proof fn lemma_user_index_update(users: Seq<UserView>, at: int, user: UserView, login: Seq<char>)
    requires
        0 <= at < users.len(),
        users[at].login == user.login,
    ensures
        user_index(users.update(at, user), login) == user_index(users, login),
    decreases users.len(),
{
    let updated = users.update(at, user);
    if at == users.len() - 1 {
        assert(updated.drop_last() =~= users.drop_last());
    } else {
        assert(updated.drop_last() =~= users.drop_last().update(at, user));
        lemma_user_index_update(users.drop_last(), at, user, login);
    }
}

} // verus!
