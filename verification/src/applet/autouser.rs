//! The `autouser` applet.
//!
//! It creates and configures users and groups.

use vstd::prelude::*;
use crate::text::views;
use crate::error::{Error, ErrorView};
use crate::system::command_on_path;

verus! {

/// `autouser` applet configuration.
#[derive(Debug, Clone)]
pub struct AutouserConfig {
    /// Whether to enable the applet or not.
    pub enable: bool,
    /// Name of the admin group.
    ///
    /// If unset, one will be automatically discovered (`wheel`, `sudo`,
    /// `root`).
    pub admin_group: Option<String>,
}

impl Default for AutouserConfig {
    fn default() -> (r: Self)
        ensures
            r.enable,
            r.admin_group is None,
    {
        Self { enable: true, admin_group: None }
    }
}

/// The tools that the applet runs.
pub open spec fn account_tools() -> Seq<Seq<char>> {
    seq!["useradd"@, "groupadd"@, "usermod"@, "groupmod"@]
}

/// The commands among `commands` that were not found, `found` telling of
/// each whether it was.
pub open spec fn missing_of(commands: Seq<Seq<char>>, found: Seq<bool>) -> Seq<Seq<char>>
    decreases commands.len(),
{
    if commands.len() == 0 || found.len() != commands.len() {
        Seq::empty()
    } else {
        let earlier = missing_of(commands.drop_last(), found.drop_last());
        if found.last() {
            earlier
        } else {
            earlier.push(commands.last())
        }
    }
}

impl AutouserConfig {
    /// The tools that must be on the search path: those that the applet
    /// runs where it is enabled, and none where it is not.
    pub fn required_commands(&self) -> (r: Vec<String>)
        ensures
            views(r@) == if self.enable {
                account_tools()
            } else {
                Seq::empty()
            },
    {
        let mut commands: Vec<String> = Vec::new();
        if self.enable {
            commands.push("useradd".to_owned());
            commands.push("groupadd".to_owned());
            commands.push("usermod".to_owned());
            commands.push("groupmod".to_owned());
        }
        assert(views(commands@) =~= if self.enable {
            account_tools()
        } else {
            Seq::empty()
        });
        commands
    }
}

/// The commands among `commands` that were not found, in their order,
/// `found` telling of each whether it was. None where `found` does not tell
/// of each command.
pub fn missing_commands(commands: &Vec<String>, found: &Vec<bool>) -> (missing: Vec<String>)
    ensures
        views(missing@) == missing_of(views(commands@), found@),
{
    let ghost all = views(commands@);
    let mut missing: Vec<String> = Vec::new();
    assert(views(missing@) =~= Seq::empty());
    if found.len() != commands.len() {
        return missing;
    }
    let mut i: usize = 0;
    assert(all.subrange(0, 0) =~= Seq::empty());
    while i < commands.len()
        invariant
            i <= commands@.len(),
            found@.len() == commands@.len(),
            all == views(commands@),
            views(missing@) == missing_of(all.subrange(0, i as int), found@.subrange(0, i as int)),
        decreases commands@.len() - i,
    {
        let ghost longer = all.subrange(0, i + 1);
        let ghost answers = found@.subrange(0, i + 1);
        proof {
            assert(longer.drop_last() =~= all.subrange(0, i as int));
            assert(longer.last() == commands@[i as int]@);
            assert(answers.drop_last() =~= found@.subrange(0, i as int));
            assert(answers.last() == found@[i as int]);
        }
        if !found[i] {
            let ghost before = views(missing@);
            missing.push(commands[i].clone());
            assert(views(missing@) =~= before.push(commands@[i as int]@));
        }
        i += 1;
    }
    proof {
        assert(all.subrange(0, i as int) =~= all);
        assert(found@.subrange(0, i as int) =~= found@);
    }
    missing
}

/// Looks for each of the commands on the search path, and returns those
/// that are not found, in their order.
pub fn check_requirements(commands: &Vec<String>) -> (missing: Vec<String>)
    ensures
        exists|found: Seq<bool>|
            found.len() == commands@.len() && views(missing@) == missing_of(
                views(commands@),
                found,
            ),
{
    let mut found: Vec<bool> = Vec::new();
    let mut i: usize = 0;
    while i < commands.len()
        invariant
            i <= commands@.len(),
            found@.len() == i,
        decreases commands@.len() - i,
    {
        found.push(command_on_path(commands[i].as_str()));
        i += 1;
    }
    let missing = missing_commands(commands, &found);
    assert(found@.len() == commands@.len() && views(missing@) == missing_of(
        views(commands@),
        found@,
    ));
    missing
}

/// Whether the applet can start: it cannot where a tool is missing.
pub fn requirements_met(missing: &Vec<String>) -> (r: Result<(), Error>)
    ensures
        missing@.len() == 0 ==> r is Ok,
        missing@.len() > 0 ==> (r matches Err(e) && e@ == ErrorView::UnmetSystemRequirements),
{
    if missing.len() == 0 {
        Ok(())
    } else {
        Err(Error::UnmetSystemRequirements)
    }
}

} // verus!
