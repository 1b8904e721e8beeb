use xssh::{SSHConfig, SSHHost};

fn host(name: &str, ip: &str, user: &str) -> SSHHost {
    SSHHost::new(name.to_string(), ip.to_string(), user.to_string())
}

#[test]
fn host_block_text() {
    let h = host("db1", "10.0.0.5", "root");
    assert_eq!(
        h.to_string(),
        "\nHost db1\n    HostName 10.0.0.5\n    User root\n    StrictHostKeyChecking no\n"
    );
}

#[test]
fn host_block_round_trip() {
    let h = host("web", "100.64.0.2", "ubuntu");
    let back = SSHHost::parse(&h.to_string()).expect("block parses");
    assert_eq!(back.hostname, "web");
    assert_eq!(back.ip, "100.64.0.2");
    assert_eq!(back.user, "ubuntu");
}

#[test]
fn parse_rejects_other_text() {
    assert!(SSHHost::parse("").is_none());
    assert!(SSHHost::parse("Host x\n").is_none());
    assert!(SSHHost::parse(
        "\nHost db1\n    HostName 10.0.0.5\n    User root\n    StrictHostKeyChecking yes\n"
    )
    .is_none());
    assert!(SSHHost::parse(
        "\nHost db1\n    Hostname 10.0.0.5\n    User root\n    StrictHostKeyChecking no\n"
    )
    .is_none());
}

#[test]
fn load_starts_empty() {
    let c = SSHConfig::load("~/.ssh/config".to_string());
    assert!(c.list().is_empty());
    assert!(c.blocks().is_empty());
    assert_eq!(c.filename(), "~/.ssh/config");
}

#[test]
fn add_new_names_in_order() {
    let mut c = SSHConfig::load("cfg".to_string());
    c.add(host("b", "1.1.1.1", "root"), false);
    c.add(host("a", "2.2.2.2", "debian"), false);
    assert_eq!(c.list(), vec!["b".to_string(), "a".to_string()]);
    assert_eq!(
        c.blocks(),
        vec![
            "\nHost b\n    HostName 1.1.1.1\n    User root\n    StrictHostKeyChecking no\n".to_string(),
            "\nHost a\n    HostName 2.2.2.2\n    User debian\n    StrictHostKeyChecking no\n".to_string(),
        ]
    );
}

#[test]
fn add_existing_without_overwrite_keeps_entry() {
    let mut c = SSHConfig::load("cfg".to_string());
    assert!(c.add(host("db1", "10.0.0.5", "root"), false));
    assert!(!c.add(host("db1", "10.0.0.9", "ubuntu"), false));
    let e = c.get(&"db1".to_string()).expect("present");
    assert_eq!(e.ip, "10.0.0.5");
    assert_eq!(e.user, "root");
    assert_eq!(c.list(), vec!["db1".to_string()]);
}

#[test]
fn add_existing_with_overwrite_replaces_entry() {
    let mut c = SSHConfig::load("cfg".to_string());
    c.add(host("db1", "10.0.0.5", "root"), false);
    c.add(host("other", "10.0.0.6", "root"), false);
    assert!(c.add(host("db1", "10.0.0.9", "ubuntu"), true));
    let e = c.get(&"db1".to_string()).expect("present");
    assert_eq!(e.ip, "10.0.0.9");
    assert_eq!(e.user, "ubuntu");
    assert_eq!(c.list(), vec!["db1".to_string(), "other".to_string()]);
}

#[test]
fn get_missing_name() {
    let c = SSHConfig::load("cfg".to_string());
    assert!(c.get(&"nope".to_string()).is_none());
}
