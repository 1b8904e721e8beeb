use xssh::{split_on, Action, Args, SSH};

fn strings(v: &[&str]) -> Vec<String> {
    v.iter().map(|s| s.to_string()).collect()
}

#[test]
fn split_on_spaces() {
    assert_eq!(split_on("a b", ' '), strings(&["a", "b"]));
    assert_eq!(split_on("a  b", ' '), strings(&["a", "", "b"]));
    assert_eq!(split_on("", ' '), strings(&[""]));
    assert_eq!(split_on(" x ", ' '), strings(&["", "x", ""]));
}

#[test]
fn ssh_args_without_tmux() {
    let ssh = SSH::new("server1".to_string(), None);
    assert_eq!(ssh.args(), &strings(&["server1"]));
}

#[test]
fn ssh_args_with_tmux() {
    let ssh = SSH::new("server1".to_string(), Some("main".to_string()));
    assert_eq!(
        ssh.args(),
        &strings(&["server1", "-t", "tmux", "-u", "new", "-Asmain"])
    );
}

#[test]
fn ssh_args_tmux_name_with_space_is_split() {
    let ssh = SSH::new("h".to_string(), Some("a b".to_string()));
    assert_eq!(
        ssh.args(),
        &strings(&["h", "-t", "tmux", "-u", "new", "-Asa", "b"])
    );
}

fn args(destination: Option<&str>, sync: Option<&str>, overwrite: bool) -> Args {
    Args {
        destination: destination.map(|s| s.to_string()),
        tmux: None,
        save: false,
        sync: sync.map(|s| s.to_string()),
        overwrite,
    }
}

#[test]
fn unknown_sync_source_is_invalid() {
    let a = args(None, Some("unknownsource"), false);
    assert!(matches!(a.action(), Action::InvalidSource));
}

#[test]
fn tailscale_sync_source() {
    let a = args(None, Some("tailscale"), true);
    assert!(matches!(a.action(), Action::SyncTailscale { overwrite: true }));
    let b = args(None, Some("tailscale"), false);
    assert!(matches!(b.action(), Action::SyncTailscale { overwrite: false }));
}

#[test]
fn destination_connects() {
    let a = args(Some("box"), None, false);
    match a.action() {
        Action::Connect(ssh) => assert_eq!(ssh.args(), &strings(&["box"])),
        other => panic!("unexpected action {:?}", other),
    }
}

#[test]
fn no_arguments_do_nothing() {
    let a = args(None, None, false);
    assert!(matches!(a.action(), Action::Nothing));
}
