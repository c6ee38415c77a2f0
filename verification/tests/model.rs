use net_topology::model::{Connection, Interface, Machine, Model, Process};

fn machine(hostname: &str, device: &str) -> Machine {
    Machine {
        hostname: hostname.to_string(),
        interfaces: vec![Interface { name: device.to_string(), addresses: Vec::new() }],
        processes: vec![Process { name: "sshd".to_string(), addresses: Vec::new() }],
    }
}

fn connection(host: &str, remote: &str) -> Connection {
    Connection {
        host: host.to_string(),
        process: "sshd".to_string(),
        local_addr: "10.0.0.1".to_string(),
        local_port: "22".to_string(),
        remote_addr: remote.to_string(),
        remote_port: "50000".to_string(),
    }
}

#[test]
fn a_new_model_is_empty() {
    let model = Model::new();
    assert!(model.machines.is_empty());
    assert!(model.connections.is_empty());
    assert!(!model.has_machine("web1"));
}

#[test]
fn add_machine_adds_a_new_hostname() {
    let mut model = Model::new();
    assert!(model.add_machine(machine("web1", "eth0")));
    assert!(model.add_machine(machine("web2", "eth0")));
    assert_eq!(model.machines.len(), 2);
    assert_eq!(model.machines[0].hostname, "web1");
    assert_eq!(model.machines[1].hostname, "web2");
    assert!(model.has_machine("web1"));
    assert!(model.has_machine("web2"));
    assert!(!model.has_machine("web"));
}

#[test]
fn add_machine_twice_keeps_one_machine() {
    let mut model = Model::new();
    assert!(model.add_machine(machine("web1", "eth0")));
    assert!(!model.add_machine(machine("web1", "eth1")));
    assert_eq!(model.machines.len(), 1);
    assert_eq!(model.machines[0].interfaces[0].name, "eth0");
    let count = model.machines.iter().filter(|m| m.hostname == "web1").count();
    assert_eq!(count, 1);
}

#[test]
fn add_machine_twice_among_others_keeps_one_machine() {
    let mut model = Model::new();
    for hostname in ["a1", "web1", "b2", "web1", "a1", "web1"] {
        model.add_machine(machine(hostname, "eth0"));
    }
    let hostnames: Vec<&str> = model.machines.iter().map(|m| m.hostname.as_str()).collect();
    assert_eq!(hostnames, vec!["a1", "web1", "b2"]);
}

#[test]
fn add_connections_appends_in_order() {
    let mut model = Model::new();
    model.add_connections(vec![connection("web1", "10.0.0.2"), connection("web1", "10.0.0.3")]);
    model.add_connections(Vec::new());
    model.add_connections(vec![connection("web2", "10.0.0.1")]);
    let remotes: Vec<&str> = model.connections.iter().map(|c| c.remote_addr.as_str()).collect();
    assert_eq!(remotes, vec!["10.0.0.2", "10.0.0.3", "10.0.0.1"]);
    assert!(model.machines.is_empty());
}
