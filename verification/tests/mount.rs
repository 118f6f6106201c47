use miniond::applet::automount::BackendConfig;
use miniond::error::Error;
use miniond::mount::{Backend, NfsMount};

fn unit_name(local: &str) -> String {
    NfsMount::new("nfs.emulab:/x".to_string(), local.to_string()).unit_name()
}

#[test]
fn unit_names_follow_the_mount_point() {
    assert_eq!(unit_name("/proj/p-PG0"), "proj-p\\x2dPG0.mount");
    assert_eq!(unit_name("/share"), "share.mount");
    assert_eq!(unit_name("/users/alice_b/data:1"), "users-alice_b-data:1.mount");
    assert_eq!(unit_name("/"), "-.mount");
    assert_eq!(unit_name(""), "-.mount");
    assert_eq!(unit_name("///"), "-.mount");
    assert_eq!(unit_name("//a///b//"), "a-b.mount");
    assert_eq!(unit_name("a/b"), "a-b.mount");
    assert_eq!(unit_name("/.hidden/x.y"), "\\x2ehidden-x.y.mount");
    assert_eq!(unit_name("/a/.b"), "a-.b.mount");
    assert_eq!(unit_name("/with space"), "with\\x20space.mount");
    assert_eq!(unit_name("/é"), "\\xc3\\xa9.mount");
    assert_eq!(unit_name("/A~Z"), "A\\x7eZ.mount");
}

#[test]
fn unit_text_describes_an_nfs_mount() {
    let mount = NfsMount::new("nfs.emulab:/proj/p-PG0".to_string(), "/proj/p-PG0".to_string());
    assert_eq!(mount.remote(), "nfs.emulab:/proj/p-PG0");
    assert_eq!(mount.local(), "/proj/p-PG0");
    assert_eq!(
        mount.unit_text(),
        "[Unit]\nDescription=NFS mount of nfs.emulab:/proj/p-PG0\n\n[Mount]\nWhat=nfs.emulab:/proj/p-PG0\nWhere=/proj/p-PG0\nType=nfs\n\n[Install]\nWantedBy=multi-user.target\n"
    );
    let copy = mount.duplicate();
    assert_eq!(copy.remote(), mount.remote());
    assert_eq!(copy.local(), mount.local());
}

#[test]
fn units_are_written_and_then_activated() {
    let backend = Backend::new(BackendConfig::Systemd, "/etc/systemd/system");
    let Backend::Systemd(dir) = &backend;
    assert_eq!(dir, "/etc/systemd/system");
    assert_eq!(backend.program(), "systemctl");
    let mount = NfsMount::new("nfs.emulab:/share".to_string(), "/share".to_string());
    let unit = mount.apply(&backend);
    assert_eq!(unit.name, "share.mount");
    assert_eq!(unit.text, mount.unit_text());
    assert_eq!(unit.activation(), vec![vec!["daemon-reload".to_string()], vec!["start".to_string(), "share.mount".to_string()]]);
    assert_eq!(backend.finished(true), Ok(()));
    assert_eq!(backend.finished(false), Err(Error::Mount));
}
