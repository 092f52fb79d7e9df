use mailroom::machines::{failover_candidates, first_available_url, Candidate, MachineRegistry};

fn registry() -> MachineRegistry {
    MachineRegistry {
        machines: vec![
            ("island".to_string(), "100.1.2.3".to_string()),
            ("locomotive".to_string(), "100.106.125.87".to_string()),
        ],
    }
}

#[test]
fn hosts_by_name() {
    let r = registry();
    assert_eq!(r.host_for("island"), Some("100.1.2.3"));
    assert_eq!(r.host_for("loom"), None);
    assert_eq!(MachineRegistry::empty().host_for("island"), None);
}

#[test]
fn failover_tries_the_priority_list_in_order() {
    let r = registry();
    let priority = vec!["loom".to_string(), "locomotive".to_string(), "island".to_string()];
    let c = failover_candidates(&r, &priority, 8090, "/health");
    assert_eq!(c.len(), 3);
    assert!(matches!(&c[0], Candidate::Unknown { name } if name == "loom"));
    match &c[1] {
        Candidate::Probe { name, base_url, health_url } => {
            assert_eq!(name, "locomotive");
            assert_eq!(base_url, "http://100.106.125.87:8090");
            assert_eq!(health_url, "http://100.106.125.87:8090/health");
        }
        _ => panic!(),
    }
    match &c[2] {
        Candidate::Probe { base_url, .. } => assert_eq!(base_url, "http://100.1.2.3:8090"),
        _ => panic!(),
    }
}

#[test]
fn failover_takes_the_first_healthy_machine() {
    let reg = MachineRegistry::from_pairs(vec![
        ("island".to_string(), "100.1.1.1".to_string()),
        ("loom".to_string(), "100.2.2.2".to_string()),
    ]);
    let priority = vec!["ghost".to_string(), "island".to_string(), "loom".to_string()];
    let cands = failover_candidates(&reg, &priority, 8090, "/health");
    assert_eq!(first_available_url(&cands, &vec![false, false, true]), Some("http://100.2.2.2:8090".to_string()));
    assert_eq!(first_available_url(&cands, &vec![false, true]), Some("http://100.1.1.1:8090".to_string()));
    assert_eq!(first_available_url(&cands, &vec![false, false, false]), None);
    assert_eq!(first_available_url(&cands, &vec![true]), None);
}

#[test]
fn a_later_address_for_a_name_wins() {
    let reg = MachineRegistry::from_pairs(vec![
        ("island".to_string(), "old".to_string()),
        ("island".to_string(), "new".to_string()),
    ]);
    assert_eq!(reg.machines.len(), 1);
    assert_eq!(reg.host_for("island"), Some("new"));
}
