use xssh::{InferenceConfig, UserInference};

fn candidates(users: &[&str]) -> InferenceConfig {
    InferenceConfig {
        users: users.iter().map(|s| s.to_string()).collect(),
        wait_kill: 2,
        wait_term: 10,
        connect_timeout: 5,
    }
}

fn drive(config: &InferenceConfig, outcomes: &[bool]) -> (String, usize) {
    let mut inf = UserInference::new(config, "10.0.0.1".to_string());
    while inf.next_probe().is_some() {
        let ok = outcomes[inf.probes()];
        inf.record(ok);
    }
    (inf.account(), inf.probes())
}

#[test]
fn standard_candidates() {
    let c = InferenceConfig::standard();
    assert_eq!(c.users, vec!["ubuntu", "debian", "root"]);
    assert_eq!(c.connect_timeout, 5);
}

#[test]
fn all_probes_fail_gives_last_candidate() {
    let c = InferenceConfig::standard();
    assert_eq!(drive(&c, &[false, false, false]), ("root".to_string(), 3));
    let d = candidates(&["a", "b"]);
    assert_eq!(drive(&d, &[false, false]), ("b".to_string(), 2));
}

#[test]
fn only_kth_probe_succeeds() {
    let c = InferenceConfig::standard();
    assert_eq!(drive(&c, &[true, false, false]), ("ubuntu".to_string(), 1));
    assert_eq!(drive(&c, &[false, true, false]), ("debian".to_string(), 2));
    assert_eq!(drive(&c, &[false, false, true]), ("root".to_string(), 3));
}

#[test]
fn single_candidate() {
    let c = candidates(&["admin"]);
    assert_eq!(drive(&c, &[false]), ("admin".to_string(), 1));
    assert_eq!(drive(&c, &[true]), ("admin".to_string(), 1));
}

#[test]
fn probe_arguments() {
    let c = InferenceConfig::standard();
    let inf = UserInference::new(&c, "10.0.0.1".to_string());
    let args = inf.next_probe().expect("a probe is due");
    let expected: Vec<String> = [
        "-k",
        "2",
        "10",
        "ssh",
        "-o",
        "StrictHostKeyChecking=no",
        "-o",
        "ConnectTimeout=5",
        "-o",
        "BatchMode=true",
        "-Cq",
        "ubuntu@10.0.0.1",
        "exit",
    ]
    .iter()
    .map(|s| s.to_string())
    .collect();
    assert_eq!(args, expected);
}

#[test]
fn probe_arguments_follow_config_and_candidate() {
    let c = InferenceConfig {
        users: vec!["x".to_string(), "y".to_string()],
        wait_kill: 307,
        wait_term: 0,
        connect_timeout: 12,
    };
    let mut inf = UserInference::new(&c, "h".to_string());
    inf.record(false);
    let args = inf.next_probe().expect("a probe is due");
    assert_eq!(args[1], "307");
    assert_eq!(args[2], "0");
    assert_eq!(args[7], "ConnectTimeout=12");
    assert_eq!(args[11], "y@h");
    inf.record(false);
    assert!(inf.next_probe().is_none());
    assert!(inf.is_finished());
}
