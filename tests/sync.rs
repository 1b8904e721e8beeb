use xssh::{SSHConfig, SSHHost, Sync, SyncError, Tailscale, TailscalePeer};

fn peer(name: &str, ips: &[&str], tags: Option<&[&str]>) -> TailscalePeer {
    TailscalePeer {
        hostname: name.to_string(),
        ips: ips.iter().map(|s| s.to_string()).collect(),
        tags: tags.map(|t| t.iter().map(|s| s.to_string()).collect()),
    }
}

#[test]
fn only_server_peers_are_kept() {
    let t = Tailscale::new(vec![
        peer("a", &["10.0.0.1"], Some(&["tag:server"])),
        peer("b", &["10.0.0.2"], None),
        peer("c", &["10.0.0.3"], Some(&["tag:laptop"])),
        peer("d", &["10.0.0.4"], Some(&["tag:other", "tag:server"])),
        peer("e", &["10.0.0.5"], Some(&[])),
    ]);
    let names: Vec<&str> = t.peers.iter().map(|p| p.hostname.as_str()).collect();
    assert_eq!(names, vec!["a", "d"]);
}

#[test]
fn peer_address_is_first() {
    let p = peer("a", &["10.0.0.1", "fd7a::1"], None);
    assert_eq!(p.address().map(|s| s.as_str()), Some("10.0.0.1"));
    assert!(peer("b", &[], None).address().is_none());
    assert!(peer("a", &[], Some(&["tag:server"])).is_server());
}

#[test]
fn sync_one_tagged_of_two() {
    let t = Tailscale::new(vec![
        peer("srv", &["10.0.0.1"], Some(&["tag:server"])),
        peer("lap", &["10.0.0.2"], None),
    ]);
    let mut c = SSHConfig::load("cfg".to_string());
    let r = Sync::new(false).tailscale(&mut c, &t, &vec!["ubuntu".to_string()]);
    assert_eq!(r.expect("sync succeeds"), Vec::<String>::new());
    assert_eq!(c.list(), vec!["srv".to_string()]);
    let h = c.get(&"srv".to_string()).expect("present");
    assert_eq!(h.ip, "10.0.0.1");
    assert_eq!(h.user, "ubuntu");
}

fn store_with_db1() -> SSHConfig {
    let mut c = SSHConfig::load("cfg".to_string());
    c.add(
        SSHHost::new("db1".to_string(), "10.0.0.5".to_string(), "root".to_string()),
        false,
    );
    c
}

#[test]
fn sync_keeps_existing_without_overwrite() {
    let mut c = store_with_db1();
    let t = Tailscale::new(vec![peer("db1", &["10.0.0.7"], Some(&["tag:server"]))]);
    let skipped = Sync::new(false)
        .tailscale(&mut c, &t, &vec!["ubuntu".to_string()])
        .expect("sync succeeds");
    assert_eq!(skipped, vec!["db1".to_string()]);
    let h = c.get(&"db1".to_string()).expect("present");
    assert_eq!(h.ip, "10.0.0.5");
    assert_eq!(h.user, "root");
}

#[test]
fn sync_replaces_existing_with_overwrite() {
    let mut c = store_with_db1();
    let t = Tailscale::new(vec![peer("db1", &["10.0.0.7"], Some(&["tag:server"]))]);
    let skipped = Sync::new(true)
        .tailscale(&mut c, &t, &vec!["ubuntu".to_string()])
        .expect("sync succeeds");
    assert!(skipped.is_empty());
    let h = c.get(&"db1".to_string()).expect("present");
    assert_eq!(h.ip, "10.0.0.7");
    assert_eq!(h.user, "ubuntu");
    assert_eq!(c.list(), vec!["db1".to_string()]);
}

#[test]
fn sync_stops_on_peer_without_address() {
    let mut c = store_with_db1();
    let t = Tailscale::new(vec![
        peer("ok", &["10.0.0.8"], Some(&["tag:server"])),
        peer("bad", &[], Some(&["tag:server"])),
    ]);
    let r = Sync::new(true).tailscale(
        &mut c,
        &t,
        &vec!["root".to_string(), "root".to_string()],
    );
    match r {
        Err(SyncError::MissingAddress(name)) => assert_eq!(name, "bad"),
        Ok(_) => panic!("sync should have failed"),
    }
    assert_eq!(c.list(), vec!["db1".to_string()]);
}

#[test]
fn sync_skips_repeated_name_in_one_batch() {
    let mut c = SSHConfig::load("cfg".to_string());
    let t = Tailscale::new(vec![
        peer("web", &["10.0.0.1"], Some(&["tag:server"])),
        peer("web", &["10.0.0.2"], Some(&["tag:server"])),
    ]);
    let skipped = Sync::new(false)
        .tailscale(&mut c, &t, &vec!["root".to_string(), "debian".to_string()])
        .expect("sync succeeds");
    assert_eq!(skipped, vec!["web".to_string()]);
    assert_eq!(c.get(&"web".to_string()).expect("present").ip, "10.0.0.1");
}
