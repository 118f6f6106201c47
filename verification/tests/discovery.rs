use miniond::error::Error;
use miniond::tmcc::discovery::{
    after_environment, after_file, after_srv_record, boss_file, discover_from_nameservers,
    discover_from_resolv_conf, first_place, is_usable, pick_nameserver, srv_name, Nameserver, Next,
    Place, SrvRecord, BOSS_FILES,
};
use miniond::tmcc::{BossNode, TMCD_PORT, TMCD_VERSION};

fn found(next: Next) -> (String, u16) {
    match next {
        Next::Found(BossNode::HostPort(host_port)) => host_port,
        other => panic!("{:?}", other),
    }
}

fn failed(next: Next) -> Error {
    match next {
        Next::Failed(e) => e,
        other => panic!("{:?}", other),
    }
}

fn asks(next: Next) -> Place {
    match next {
        Next::Ask(place) => place,
        other => panic!("{:?}", other),
    }
}

fn boss(spec: &str) -> Result<(String, u16), Error> {
    BossNode::parse(spec).map(|BossNode::HostPort(host_port)| host_port)
}

#[test]
fn constants() {
    assert_eq!(TMCD_PORT, 7777);
    assert_eq!(TMCD_VERSION, 44);
    assert_eq!(srv_name(), "_emulab_boss");
    assert_eq!(first_place(), Place::Environment);
    let files: Vec<&str> = (0..BOSS_FILES).map(boss_file).collect();
    assert_eq!(files, vec!["/etc/testbed", "/etc/emulab", "/etc/rc.d/testbed", "/usr/local/etc/testbed", "/usr/local/etc/emulab"]);
}

#[test]
fn host_and_port() {
    let BossNode::HostPort(host_port) = BossNode::host("boss.emulab.net".to_string());
    assert_eq!(host_port, ("boss.emulab.net".to_string(), 7777));
    assert_eq!(boss("boss.emulab.net"), Ok(("boss.emulab.net".to_string(), 7777)));
    assert_eq!(boss("boss.emulab.net:7778"), Ok(("boss.emulab.net".to_string(), 7778)));
    assert_eq!(boss("10.0.0.1:0"), Ok(("10.0.0.1".to_string(), 0)));
    assert_eq!(boss("bösß:65535"), Ok(("bösß".to_string(), 65535)));
    assert_eq!(boss(""), Ok((String::new(), 7777)));
}

#[test]
fn malformed_splits_are_errors() {
    for spec in ["boss:", ":7777", "boss:port", "boss:65536", "boss:77:77", "::1", "boss: 7777", "boss:-1", ":"] {
        assert_eq!(boss(spec), Err(Error::TmcdBadBossNode { host: spec.to_string() }), "{:?}", spec);
    }
}

#[test]
fn environment_comes_first() {
    assert_eq!(found(after_environment(Some("boss:1234".to_string()))), ("boss".to_string(), 1234));
    assert_eq!(found(after_environment(Some(" boss \n".to_string()))), (" boss \n".to_string(), 7777));
    assert_eq!(failed(after_environment(Some("boss:x".to_string()))), Error::TmcdBadBossNode { host: "boss:x".to_string() });
    assert_eq!(asks(after_environment(None)), Place::File(0));
}

#[test]
fn files_are_tried_in_order_and_trimmed() {
    for i in 0..4 {
        assert_eq!(asks(after_file(i, None)), Place::File(i + 1));
    }
    assert_eq!(asks(after_file(4, None)), Place::SrvRecord);
    assert_eq!(found(after_file(2, Some("  boss.emulab.net\n".to_string()))), ("boss.emulab.net".to_string(), 7777));
    assert_eq!(found(after_file(0, Some("boss:99\n".to_string()))), ("boss".to_string(), 99));
    assert_eq!(failed(after_file(0, Some("boss:\n".to_string()))), Error::TmcdBadBossNode { host: "boss:".to_string() });
    assert_eq!(found(after_file(4, Some(String::new()))), (String::new(), 7777));
}

fn record(target: &str, port: u16) -> SrvRecord {
    SrvRecord { target: target.to_string(), target_is_root: target == ".", port }
}

#[test]
fn srv_absent_scenario() {
    assert_eq!(failed(after_srv_record(Some(vec![record(".", 0)]))), Error::EmulabBossSrvNotAvailable);
    assert_eq!(failed(after_srv_record(Some(vec![record(".", 0), record("boss.", 7777)]))), Error::EmulabBossSrvNotAvailable);
}

#[test]
fn srv_first_record_wins() {
    let records = vec![record("boss.wisc.cloudlab.us.", 7778), record("other.", 1), record(".", 0)];
    assert_eq!(found(after_srv_record(Some(records))), ("boss.wisc.cloudlab.us.".to_string(), 7778));
    assert_eq!(asks(after_srv_record(Some(vec![]))), Place::ResolvConf);
    assert_eq!(asks(after_srv_record(None)), Place::ResolvConf);
}

fn server(octets: &[u8], text: &str) -> Nameserver {
    Nameserver { octets: octets.to_vec(), text: text.to_string() }
}

fn v6(first: u8, second: u8, last: u8) -> Vec<u8> {
    let mut octets = vec![0u8; 16];
    octets[0] = first;
    octets[1] = second;
    octets[15] = last;
    octets
}

#[test]
fn loopback_and_link_local_nameservers_are_not_usable() {
    assert!(is_usable(&server(&[10, 0, 0, 1], "10.0.0.1")));
    assert!(is_usable(&server(&[128, 127, 0, 1], "128.127.0.1")));
    assert!(is_usable(&server(&[169, 253, 0, 1], "169.253.0.1")));
    assert!(!is_usable(&server(&[127, 0, 0, 53], "127.0.0.53")));
    assert!(!is_usable(&server(&[127, 255, 255, 255], "127.255.255.255")));
    assert!(!is_usable(&server(&[169, 254, 169, 254], "169.254.169.254")));
    assert!(!is_usable(&server(&v6(0, 0, 1), "::1")));
    assert!(is_usable(&server(&v6(0, 0, 2), "::2")));
    assert!(is_usable(&server(&v6(0, 1, 1), "0:1::1")));
    assert!(!is_usable(&server(&v6(0xfe, 0x80, 1), "fe80::1")));
    assert!(!is_usable(&server(&v6(0xfe, 0xbf, 1), "febf::1")));
    assert!(is_usable(&server(&v6(0xfe, 0xc0, 1), "fec0::1")));
    assert!(is_usable(&server(&v6(0x20, 0x01, 1), "2001::1")));
    assert!(!is_usable(&server(&[10, 0, 0], "short")));
    assert!(!is_usable(&server(&[], "")));
}

#[test]
fn first_usable_nameserver_is_picked() {
    let servers = vec![server(&[127, 0, 0, 53], "127.0.0.53"), server(&[10, 0, 0, 2], "10.0.0.2"), server(&[10, 0, 0, 3], "10.0.0.3")];
    assert_eq!(pick_nameserver(&servers), Some("10.0.0.2".to_string()));
    assert_eq!(pick_nameserver(&servers[..1].to_vec()), None);
    assert_eq!(pick_nameserver(&vec![]), None);
    assert_eq!(found(discover_from_nameservers(Some(servers))), ("10.0.0.2".to_string(), 7777));
    assert_eq!(failed(discover_from_nameservers(Some(vec![]))), Error::TmcdFailedToDiscoverBossNode);
    assert_eq!(failed(discover_from_nameservers(None)), Error::TmcdFailedToDiscoverBossNode);
}

#[test]
fn resolver_configuration_is_the_last_place() {
    let conf = "# made by dhcp\nsearch wisc.cloudlab.us\nnameserver 127.0.0.53\nnameserver 128.105.145.1\nnameserver 10.0.0.1\n";
    assert_eq!(found(discover_from_resolv_conf(Some(conf.to_string()))), ("128.105.145.1".to_string(), 7777));
    let conf = "nameserver fe80::1%eth0\nnameserver 2001:db8::53\n";
    assert_eq!(found(discover_from_resolv_conf(Some(conf.to_string()))), ("2001:db8::53".to_string(), 7777));
    assert_eq!(failed(discover_from_resolv_conf(Some("nameserver ::1\n".to_string()))), Error::TmcdFailedToDiscoverBossNode);
    assert_eq!(failed(discover_from_resolv_conf(Some("search example.com\n".to_string()))), Error::TmcdFailedToDiscoverBossNode);
    assert_eq!(failed(discover_from_resolv_conf(Some("nameserver 10.0.0.1\nbogus directive\n".to_string()))), Error::TmcdFailedToDiscoverBossNode);
    assert_eq!(failed(discover_from_resolv_conf(None)), Error::TmcdFailedToDiscoverBossNode);
}
