use localstack_pro::Dict;
use localstack_pro::LocalStackProBuilder;

fn sorted_pairs(mut pairs: Vec<(String, String)>) -> Vec<(String, String)> {
    pairs.sort();
    pairs
}

fn pair(k: &str, v: &str) -> (String, String) {
    (k.to_string(), v.to_string())
}

#[test]
fn new_build_is_empty() {
    let b = LocalStackProBuilder::new();
    let d = b.build();
    assert_eq!(d.tag(), "");
    assert!(d.env_vars().is_empty());
    assert!(d.volumes().is_empty());
    assert!(d.expose_ports().is_empty());
}

#[test]
fn defaults_build_environment() {
    let d = LocalStackProBuilder::defaults("secret123".to_string()).build();
    let expected = vec![
        pair("DEBUG", "1"),
        pair("DOCKER_HOST", "unix:///var/run/docker.sock"),
        pair("LOCALSTACK_API_KEY", "secret123"),
    ];
    assert_eq!(sorted_pairs(d.env_vars()), expected);
}

#[test]
fn defaults_build_volumes_and_tag() {
    let d = LocalStackProBuilder::defaults("secret123".to_string()).build();
    assert_eq!(d.volumes(), vec![pair("/var/run/docker.sock", "/var/run/docker.sock")]);
    assert_eq!(d.tag(), "latest");
    assert_eq!(d.name(), "localstack/localstack-pro");
}

#[test]
fn defaults_build_ports() {
    let d = LocalStackProBuilder::defaults("secret123".to_string()).build();
    let mut expected: Vec<u16> = vec![4566, 53, 443];
    for p in 4510u16..4560 {
        expected.push(p);
    }
    assert_eq!(expected.len(), 53);
    assert_eq!(d.expose_ports(), expected);
}

#[test]
fn set_env_vars_replaces_not_merges() {
    let mut b = LocalStackProBuilder::defaults("secret123".to_string());
    let mut m = Dict::new();
    m.insert("ONLY".to_string(), "pair".to_string());
    b.set_env_vars(m);
    let d = b.build();
    assert_eq!(d.env_vars(), vec![pair("ONLY", "pair")]);
}

#[test]
fn set_volumes_replaces_not_merges() {
    let mut b = LocalStackProBuilder::defaults("secret123".to_string());
    let mut m = Dict::new();
    m.insert("/host".to_string(), "/container".to_string());
    b.set_volumes(m);
    let d = b.build();
    assert_eq!(d.volumes(), vec![pair("/host", "/container")]);
}

#[test]
fn last_setter_call_wins() {
    let mut b = LocalStackProBuilder::new();
    b.set_tag("one".to_string());
    b.set_tag("two".to_string());
    b.set_ports(vec![1, 2, 3]);
    b.set_ports(vec![9]);
    let d = b.build();
    assert_eq!(d.tag(), "two");
    assert_eq!(d.expose_ports(), vec![9]);
}

#[test]
fn insert_overwrites_existing_key() {
    let mut m = Dict::new();
    m.insert("DEBUG".to_string(), "1".to_string());
    m.insert("DEBUG".to_string(), "0".to_string());
    let mut b = LocalStackProBuilder::new();
    b.set_env_vars(m);
    let d = b.build();
    assert_eq!(d.env_vars(), vec![pair("DEBUG", "0")]);
}

#[test]
fn env_round_trip_is_exact() {
    let mut m = Dict::new();
    m.insert("B".to_string(), "2".to_string());
    m.insert("A".to_string(), "1".to_string());
    m.insert("C".to_string(), "3".to_string());
    m.insert("A".to_string(), "override".to_string());
    let mut b = LocalStackProBuilder::new();
    b.set_env_vars(m);
    let d = b.build();
    let expected = vec![pair("A", "override"), pair("B", "2"), pair("C", "3")];
    assert_eq!(sorted_pairs(d.env_vars()), expected);
}

#[test]
fn ports_kept_verbatim_with_duplicates() {
    for ports in [vec![], vec![8080u16], vec![443, 443, 53, 443, 0, 65535]] {
        let mut b = LocalStackProBuilder::new();
        b.set_ports(ports.clone());
        let d = b.build();
        assert_eq!(d.expose_ports(), ports);
    }
}

#[test]
fn built_descriptor_is_frozen() {
    let mut b = LocalStackProBuilder::defaults("secret123".to_string());
    let d1 = b.build();
    let mut m = Dict::new();
    m.insert("NEW".to_string(), "value".to_string());
    b.set_env_vars(m);
    b.set_tag("edge".to_string());
    b.set_ports(vec![1]);
    let expected = vec![
        pair("DEBUG", "1"),
        pair("DOCKER_HOST", "unix:///var/run/docker.sock"),
        pair("LOCALSTACK_API_KEY", "secret123"),
    ];
    assert_eq!(sorted_pairs(d1.env_vars()), expected);
    assert_eq!(d1.tag(), "latest");
    assert_eq!(d1.expose_ports().len(), 53);
}

#[test]
fn two_snapshots_differ_only_in_changed_field() {
    let mut b = LocalStackProBuilder::defaults("secret123".to_string());
    let d1 = b.build();
    b.set_tag("3.4".to_string());
    let d2 = b.build();
    assert_eq!(d1.tag(), "latest");
    assert_eq!(d2.tag(), "3.4");
    assert_eq!(sorted_pairs(d1.env_vars()), sorted_pairs(d2.env_vars()));
    assert_eq!(sorted_pairs(d1.volumes()), sorted_pairs(d2.volumes()));
    assert_eq!(d1.expose_ports(), d2.expose_ports());
}
