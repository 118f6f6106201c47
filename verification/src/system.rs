//! What the agent asks of the node it runs on: the user and group
//! databases and the search path. Nothing is known of an answer before it
//! is given, so the functions here promise nothing about what they return.

use vstd::prelude::*;
use crate::text::bytes_of;

verus! {

/// An entry of the system's user database.
#[derive(Debug, Clone)]
pub struct Passwd {
    /// The login.
    pub name: String,
    /// The UID.
    pub uid: u32,
    /// The primary group.
    pub gid: u32,
    /// The home directory.
    pub home: String,
}

/// Calls `users::get_user_by_name`, which looks a login up in the system's
/// user database. Texts in the entry come with whatever is not UTF-8 in
/// them replaced.
#[verifier::external_body]
pub(crate) fn lookup_user_by_name(login: &str) -> (r: Option<Passwd>) {
    users::get_user_by_name(login).map(
        |u| Passwd {
            name: u.name().to_string_lossy().into_owned(),
            uid: u.uid(),
            gid: u.primary_group_id(),
            home: users::os::unix::UserExt::home_dir(&u).to_string_lossy().into_owned(),
        },
    )
}

/// Calls `users::get_user_by_uid`, which looks a UID up in the system's
/// user database. Texts in the entry come with whatever is not UTF-8 in
/// them replaced.
#[verifier::external_body]
pub(crate) fn lookup_user_by_uid(uid: u32) -> (r: Option<Passwd>) {
    users::get_user_by_uid(uid).map(
        |u| Passwd {
            name: u.name().to_string_lossy().into_owned(),
            uid: u.uid(),
            gid: u.primary_group_id(),
            home: users::os::unix::UserExt::home_dir(&u).to_string_lossy().into_owned(),
        },
    )
}

/// Whether a text is free of zero bytes, which no name in the system's
/// databases can hold.
pub open spec fn nul_free(text: Seq<char>) -> bool {
    forall|i: int| 0 <= i < bytes_of(text).len() ==> bytes_of(text)[i] != 0
}

/// Calls `users::get_user_groups`, which loads the groups that the user
/// with the given login and primary group is a member of, and hands out
/// their names. `None` where the list cannot be had. The call does not
/// return for a login that holds a zero byte.
#[verifier::external_body]
pub(crate) fn lookup_user_groups(login: &str, gid: u32) -> (r: Option<Vec<String>>)
    requires
        nul_free(login@),
{
    users::get_user_groups(login, gid).map(
        |groups| groups.iter().map(|g| g.name().to_string_lossy().into_owned()).collect(),
    )
}

/// Calls `users::get_group_by_name`, which looks a group up in the system's
/// group database, and hands out its GID.
#[verifier::external_body]
pub(crate) fn lookup_group_gid(name: &str) -> (r: Option<u32>) {
    users::get_group_by_name(name).map(|group| group.gid())
}

/// Calls `which::which`, which looks for an executable of the given name
/// on the search path. Returns whether one was found.
#[verifier::external_body]
pub(crate) fn command_on_path(name: &str) -> (r: bool) {
    which::which(name).is_ok()
}

/// Whether a text is free of zero bytes.
pub fn is_nul_free(text: &str) -> (r: bool)
    ensures
        r == nul_free(text@),
{
    let bytes = text.as_bytes();
    let mut i: usize = 0;
    while i < bytes.len()
        invariant
            i <= bytes@.len(),
            bytes@ == bytes_of(text@),
            forall|j: int| 0 <= j < i ==> bytes@[j] != 0,
        decreases bytes@.len() - i,
    {
        if bytes[i] == 0 {
            return false;
        }
        i += 1;
    }
    true
}

} // verus!
