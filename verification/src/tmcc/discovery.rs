//! Boss node discovery.
//!
//! The controller is looked for in four places, in this order, and the
//! first that names one decides: the environment variable `BOSSNODE`, a
//! list of well-known files, the SRV record `_emulab_boss` in the search
//! domain, and the name servers of the resolver configuration. Each place
//! is asked only when the ones before it gave nothing.

use vstd::prelude::*;
use crate::error::{Error, ErrorView};
use crate::text::{trim, trimmed};
use crate::tmcc::{boss_of, BossNode, BossNodeView, TMCD_PORT};

verus! {

/// How many well-known files may name the controller.
pub const BOSS_FILES: usize = 5;

/// A place in which the controller is looked for.
#[derive(Debug, Clone, Copy, PartialEq, Eq, Structural)]
pub enum Place {
    /// The environment variable `BOSSNODE`.
    Environment,
    /// The well-known file of the given index, below [`BOSS_FILES`].
    File(usize),
    /// The SRV record `_emulab_boss` in the search domain.
    SrvRecord,
    /// The resolver configuration, `/etc/resolv.conf`.
    ResolvConf,
}

/// The path of a well-known file, by its index.
pub open spec fn boss_file_path(index: int) -> Seq<char> {
    if index == 0 {
        "/etc/testbed"@
    } else if index == 1 {
        "/etc/emulab"@
    } else if index == 2 {
        "/etc/rc.d/testbed"@
    } else if index == 3 {
        "/usr/local/etc/testbed"@
    } else {
        "/usr/local/etc/emulab"@
    }
}

/// The path of a well-known file, by its index.
pub fn boss_file(index: usize) -> (r: &'static str)
    requires
        index < BOSS_FILES,
    ensures
        r@ == boss_file_path(index as int),
{
    if index == 0 {
        "/etc/testbed"
    } else if index == 1 {
        "/etc/emulab"
    } else if index == 2 {
        "/etc/rc.d/testbed"
    } else if index == 3 {
        "/usr/local/etc/testbed"
    } else {
        "/usr/local/etc/emulab"
    }
}

/// The name of the SRV record that contains the boss node address.
pub fn srv_name() -> (r: &'static str)
    ensures
        r@ == "_emulab_boss"@,
{
    "_emulab_boss"
}

/// How discovery goes on after a place has been asked.
#[derive(Debug)]
pub enum Next {
    /// The place gave nothing: ask the given one.
    Ask(Place),
    /// The controller is found.
    Found(BossNode),
    /// Discovery has failed, and no other place is asked.
    Failed(Error),
}

/// The mathematical value of a [`Next`].
pub ghost enum NextView {
    Ask(Place),
    Found(BossNodeView),
    Failed(ErrorView),
}

impl View for Next {
    type V = NextView;

    open spec fn view(&self) -> NextView {
        match *self {
            Next::Ask(place) => NextView::Ask(place),
            Next::Found(boss) => NextView::Found(boss@),
            Next::Failed(e) => NextView::Failed(e@),
        }
    }
}

/// How discovery goes on where a place names the controller as `host` or
/// `host:port`: the controller is found, or the text is malformed and
/// discovery fails.
pub open spec fn named(spec: Seq<char>) -> NextView {
    match boss_of(spec) {
        Ok(boss) => NextView::Found(boss),
        Err(e) => NextView::Failed(e),
    }
}

/// How discovery goes on where a place names the controller.
fn name_boss(spec: &str) -> (r: Next)
    ensures
        r@ == named(spec@),
{
    match BossNode::parse(spec) {
        Ok(boss) => Next::Found(boss),
        Err(e) => Next::Failed(e),
    }
}

/// The place that is asked first.
pub fn first_place() -> (r: Place)
    ensures
        r == Place::Environment,
{
    Place::Environment
}

/// How discovery goes on after the environment: with the controller that
/// `BOSSNODE` names, or with the first file where the variable is not set.
pub fn after_environment(value: Option<String>) -> (r: Next)
    ensures
        r@ == match value {
            Some(spec) => named(spec@),
            None => NextView::Ask(Place::File(0)),
        },
{
    match value {
        Some(spec) => name_boss(spec.as_str()),
        None => Next::Ask(Place::File(0)),
    }
}

/// The place that is asked after the well-known file of the given index.
pub open spec fn place_after_file(index: int) -> Place {
    if index + 1 < BOSS_FILES {
        Place::File((index + 1) as usize)
    } else {
        Place::SrvRecord
    }
}

/// How discovery goes on after a well-known file: with the controller that
/// the file names, once the white space around its content is removed, or
/// with the next place where the file cannot be read.
pub fn after_file(index: usize, content: Option<String>) -> (r: Next)
    requires
        index < BOSS_FILES,
    ensures
        r@ == match content {
            Some(text) => named(trimmed(text@)),
            None => NextView::Ask(place_after_file(index as int)),
        },
{
    match content {
        Some(text) => name_boss(trim(text.as_str())),
        None => {
            if index + 1 < BOSS_FILES {
                Next::Ask(Place::File(index + 1))
            } else {
                Next::Ask(Place::SrvRecord)
            }
        },
    }
}

/// An SRV record, as far as discovery reads it.
#[derive(Debug, Clone)]
pub struct SrvRecord {
    /// The target of the record, in ASCII.
    pub target: String,
    /// Whether the target is the root of the DNS, `.`.
    pub target_is_root: bool,
    /// The port of the record.
    pub port: u16,
}

/// How discovery goes on after the SRV lookup has given records, of which
/// `first` is the first: a target that is the root says that there is no
/// controller, and nothing else is asked; any other target is the
/// controller, at the port of the record.
pub open spec fn after_record(first: SrvRecord) -> NextView {
    if first.target_is_root {
        NextView::Failed(ErrorView::EmulabBossSrvNotAvailable)
    } else {
        NextView::Found(BossNodeView { host: first.target@, port: first.port })
    }
}

/// How discovery goes on after the SRV lookup: by the first record where
/// the lookup gave one, else with the resolver configuration. `records` is
/// `None` where the lookup failed.
pub fn after_srv_record(records: Option<Vec<SrvRecord>>) -> (r: Next)
    ensures
        r@ == match records {
            Some(list) => if list@.len() > 0 {
                after_record(list@[0])
            } else {
                NextView::Ask(Place::ResolvConf)
            },
            None => NextView::Ask(Place::ResolvConf),
        },
{
    match records {
        Some(list) => {
            if list.len() > 0 {
                if list[0].target_is_root {
                    Next::Failed(Error::EmulabBossSrvNotAvailable)
                } else {
                    Next::Found(BossNode::HostPort((list[0].target.clone(), list[0].port)))
                }
            } else {
                Next::Ask(Place::ResolvConf)
            }
        },
        None => Next::Ask(Place::ResolvConf),
    }
}

/// A name server of the resolver configuration.
#[derive(Debug, Clone)]
pub struct Nameserver {
    /// The bytes of the address in network order: four for IPv4, sixteen
    /// for IPv6.
    pub octets: Vec<u8>,
    /// The address in text, without a scope.
    pub text: String,
}

/// The mathematical value of a [`Nameserver`].
pub ghost struct NameserverView {
    pub octets: Seq<u8>,
    pub text: Seq<char>,
}

impl View for Nameserver {
    type V = NameserverView;

    open spec fn view(&self) -> NameserverView {
        NameserverView { octets: self.octets@, text: self.text@ }
    }
}

/// The values of a list of name servers.
pub open spec fn nameserver_views(list: Seq<Nameserver>) -> Seq<NameserverView> {
    Seq::new(list.len(), |i: int| list[i]@)
}

/// Whether an address is a loopback address: `127.0.0.0/8`, or `::1`.
pub open spec fn is_loopback(octets: Seq<u8>) -> bool {
    if octets.len() == 4 {
        octets[0] == 127
    } else {
        octets.len() == 16 && octets[15] == 1 && forall|i: int| 0 <= i < 15 ==> octets[i] == 0
    }
}

/// Whether an address is a link-local address: `169.254.0.0/16`, or
/// `fe80::/10`.
pub open spec fn is_link_local(octets: Seq<u8>) -> bool {
    if octets.len() == 4 {
        octets[0] == 169 && octets[1] == 254
    } else {
        octets.len() == 16 && octets[0] == 0xfe && 0x80 <= octets[1] <= 0xbf
    }
}

/// Whether a name server can stand for the controller: it is an IPv4 or
/// IPv6 address that is neither a loopback nor a link-local one.
pub open spec fn usable(server: NameserverView) -> bool {
    (server.octets.len() == 4 || server.octets.len() == 16) && !is_loopback(server.octets)
        && !is_link_local(server.octets)
}

/// The address of the first usable name server, if there is one.
pub open spec fn picked(servers: Seq<NameserverView>) -> Option<Seq<char>>
    decreases servers.len(),
{
    if servers.len() == 0 {
        None
    } else if usable(servers[0]) {
        Some(servers[0].text)
    } else {
        picked(servers.drop_first())
    }
}

/// Whether a name server can stand for the controller.
pub fn is_usable(server: &Nameserver) -> (r: bool)
    ensures
        r == usable(server@),
{
    let octets = &server.octets;
    if octets.len() == 4 {
        !(octets[0] == 127) && !(octets[0] == 169 && octets[1] == 254)
    } else if octets.len() == 16 {
        let mut zeros = true;
        let mut i: usize = 0;
        while i < 15
            invariant
                i <= 15,
                octets@.len() == 16,
                zeros == (forall|j: int| 0 <= j < i ==> octets@[j] == 0),
            decreases 15 - i,
        {
            if octets[i] != 0 {
                zeros = false;
            }
            i += 1;
        }
        let loopback = zeros && octets[15] == 1;
        let link_local = octets[0] == 0xfe && 0x80 <= octets[1] && octets[1] <= 0xbf;
        !loopback && !link_local
    } else {
        false
    }
}

/// The address of the first usable name server, if there is one.
pub fn pick_nameserver(servers: &Vec<Nameserver>) -> (r: Option<String>)
    ensures
        match r {
            Some(text) => picked(nameserver_views(servers@)) == Some(text@),
            None => picked(nameserver_views(servers@)) is None,
        },
{
    let ghost all = nameserver_views(servers@);
    let mut i: usize = 0;
    assert(all.subrange(0, all.len() as int) =~= all);
    while i < servers.len()
        invariant
            i <= servers@.len(),
            all == nameserver_views(servers@),
            picked(all) == picked(all.subrange(i as int, all.len() as int)),
        decreases servers@.len() - i,
    {
        let ghost rest = all.subrange(i as int, all.len() as int);
        proof {
            assert(rest[0] == servers@[i as int]@);
            assert(rest.drop_first() =~= all.subrange(i + 1, all.len() as int));
        }
        if is_usable(&servers[i]) {
            return Some(servers[i].text.clone());
        }
        i += 1;
    }
    assert(all.subrange(i as int, all.len() as int) =~= Seq::empty());
    None
}

/// What `resolv_conf::Config::parse` makes of a resolver configuration:
/// its name servers in the order of the file, or `None` where the file is
/// not a resolver configuration.
pub uninterp spec fn resolv_conf_nameservers(conf: Seq<char>) -> Option<Seq<NameserverView>>;

/// Calls `resolv_conf::Config::parse`, and hands out the name servers of
/// the configuration that it returns.
#[verifier::external_body]
pub(crate) fn parse_resolv_conf(conf: &str) -> (r: Option<Vec<Nameserver>>)
    ensures
        match r {
            Some(list) => resolv_conf_nameservers(conf@) == Some(nameserver_views(list@)),
            None => resolv_conf_nameservers(conf@) is None,
        },
{
    let config = resolv_conf::Config::parse(conf).ok()?;
    Some(
        config.nameservers.iter().map(
            |ip| match ip {
                resolv_conf::ScopedIp::V4(a) => Nameserver {
                    octets: a.octets().to_vec(),
                    text: a.to_string(),
                },
                resolv_conf::ScopedIp::V6(a, _) => Nameserver {
                    octets: a.octets().to_vec(),
                    text: a.to_string(),
                },
            },
        ).collect(),
    )
}

/// How discovery ends once the name servers are known: with the first
/// usable one as the controller, at the default port, or in failure.
pub open spec fn after_nameservers(servers: Option<Seq<NameserverView>>) -> NextView {
    match servers {
        Some(list) => match picked(list) {
            Some(host) => NextView::Found(BossNodeView { host, port: TMCD_PORT }),
            None => NextView::Failed(ErrorView::TmcdFailedToDiscoverBossNode),
        },
        None => NextView::Failed(ErrorView::TmcdFailedToDiscoverBossNode),
    }
}

/// How discovery ends once the name servers are known. `servers` is `None`
/// where the resolver configuration could not be read or parsed.
pub fn discover_from_nameservers(servers: Option<Vec<Nameserver>>) -> (r: Next)
    ensures
        r@ == after_nameservers(
            match servers {
                Some(list) => Some(nameserver_views(list@)),
                None => None,
            },
        ),
{
    let host = match servers {
        Some(list) => pick_nameserver(&list),
        None => None,
    };
    match host {
        Some(host) => Next::Found(BossNode::host(host)),
        None => Next::Failed(Error::TmcdFailedToDiscoverBossNode),
    }
}

/// How discovery ends after the resolver configuration, the last place:
/// with its first usable name server as the controller, or in failure.
/// `content` is `None` where the file cannot be read.
pub fn discover_from_resolv_conf(content: Option<String>) -> (r: Next)
    ensures
        r@ == after_nameservers(
            match content {
                Some(conf) => resolv_conf_nameservers(conf@),
                None => None,
            },
        ),
{
    let servers = match content {
        Some(conf) => parse_resolv_conf(conf.as_str()),
        None => None,
    };
    discover_from_nameservers(servers)
}

} // verus!
