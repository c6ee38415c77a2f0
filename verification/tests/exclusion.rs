use net_topology::exclude::{
    is_connection_excluded, is_device_excluded, is_host_excluded, is_socket_excluded, parse_rules,
    rules_exclude_connection, rules_exclude_device, rules_exclude_host, rules_exclude_socket,
    ExclusionRule,
};

fn list(text: &str) -> Option<String> {
    Some(text.to_string())
}

fn rule(host: &str, device: &str, port: &str, protocol: &str) -> ExclusionRule {
    ExclusionRule {
        host: host.to_string(),
        device: device.to_string(),
        port: port.to_string(),
        protocol: protocol.to_string(),
    }
}

fn parts(rule: &ExclusionRule) -> (&str, &str, &str, &str) {
    (&rule.host, &rule.device, &rule.port, &rule.protocol)
}

#[test]
fn a_rule_names_up_to_four_parts() {
    let full = ExclusionRule::parse("localhost%lo:22/tcp").unwrap();
    assert_eq!(parts(&full), ("localhost", "lo", "22", "tcp"));
    let host = ExclusionRule::parse("host123").unwrap();
    assert_eq!(parts(&host), ("host123", "", "", ""));
    let device = ExclusionRule::parse("%lo").unwrap();
    assert_eq!(parts(&device), ("", "lo", "", ""));
    let port = ExclusionRule::parse(":53/udp").unwrap();
    assert_eq!(parts(&port), ("", "", "53", "udp"));
    let address = ExclusionRule::parse("10.0.0.1:8080").unwrap();
    assert_eq!(parts(&address), ("10.0.0.1", "", "8080", ""));
    let protocol = ExclusionRule::parse("host123/udp").unwrap();
    assert_eq!(parts(&protocol), ("host123", "", "", "udp"));
}

#[test]
fn a_host_part_neither_starts_nor_ends_with_a_hyphen() {
    let rule = ExclusionRule::parse("-web").unwrap();
    assert_eq!(parts(&rule), ("", "", "", ""));
    let rule = ExclusionRule::parse("web-").unwrap();
    assert_eq!(parts(&rule), ("web", "", "", ""));
    let rule = ExclusionRule::parse("web-01.example").unwrap();
    assert_eq!(parts(&rule), ("web-01.example", "", "", ""));
    let rule = ExclusionRule::parse("a-").unwrap();
    assert_eq!(parts(&rule), ("a", "", "", ""));
    let rule = ExclusionRule::parse("-").unwrap();
    assert_eq!(parts(&rule), ("", "", "", ""));
    assert!(is_host_excluded("web-01", &list("web-01")));
    assert!(!is_host_excluded("-web", &list("-web")));
    assert!(!is_host_excluded("web-", &list("web-")));
    assert!(is_host_excluded("web", &list("web-")));
}

#[test]
fn a_host_part_may_start_or_end_with_a_dot() {
    let rule = ExclusionRule::parse("web.example.").unwrap();
    assert_eq!(parts(&rule), ("web.example.", "", "", ""));
    let rule = ExclusionRule::parse(".local").unwrap();
    assert_eq!(parts(&rule), (".local", "", "", ""));
    let rule = ExclusionRule::parse(".").unwrap();
    assert_eq!(parts(&rule), (".", "", "", ""));
    let rule = ExclusionRule::parse("web.%eth0:22").unwrap();
    assert_eq!(parts(&rule), ("web.", "eth0", "22", ""));
    assert!(is_host_excluded("web.example.", &list("web.example.")));
    assert!(!is_host_excluded("web.example", &list("web.example.")));
}

#[test]
fn a_host_part_may_be_one_character() {
    let rule = ExclusionRule::parse("h").unwrap();
    assert_eq!(parts(&rule), ("h", "", "", ""));
    let rule = ExclusionRule::parse("7").unwrap();
    assert_eq!(parts(&rule), ("7", "", "", ""));
    let rule = ExclusionRule::parse("h%lo:22/tcp").unwrap();
    assert_eq!(parts(&rule), ("h", "lo", "22", "tcp"));
    let rule = ExclusionRule::parse("h-").unwrap();
    assert_eq!(parts(&rule), ("h", "", "", ""));
    let rule = ExclusionRule::parse("h.").unwrap();
    assert_eq!(parts(&rule), ("h.", "", "", ""));
    assert!(is_host_excluded("h", &list("h")));
    assert!(is_host_excluded("h", &list("%lo,h")));
    assert!(!is_host_excluded("h", &list("h1")));
    assert!(!is_host_excluded("h1", &list("h")));
    assert!(is_host_excluded("h1", &list("h1")));
    assert!(!is_host_excluded("h", &list("h%eth0")));
    assert!(is_device_excluded("h", "eth0", &list("h%eth0")));
    assert!(!is_device_excluded("g", "eth0", &list("h%eth0")));
    assert!(is_socket_excluded("h", "10.0.0.1", "80", "tcp", &list("h")));
    assert!(is_socket_excluded("h", "10.0.0.1", "80", "tcp", &list("h:80")));
    assert!(!is_socket_excluded("g", "10.0.0.1", "80", "tcp", &list("h:80")));
}

#[test]
fn a_token_that_is_no_rule_sets_no_part() {
    for token in ["", "#autossh", "!", " host"] {
        let rule = ExclusionRule::parse(token).unwrap();
        assert_eq!(parts(&rule), ("", "", "", ""), "{:?}", token);
    }
}

#[test]
fn from_groups_reads_groups_one_to_four() {
    let groups = vec![
        Some("h%d:1/p".to_string()),
        Some("h".to_string()),
        Some("d".to_string()),
        Some("1".to_string()),
        Some("p".to_string()),
    ];
    assert_eq!(parts(&ExclusionRule::from_groups(&groups)), ("h", "d", "1", "p"));
    let groups = vec![Some(":1".to_string()), None, None, Some("1".to_string()), None];
    assert_eq!(parts(&ExclusionRule::from_groups(&groups)), ("", "", "1", ""));
    let groups = vec![Some("h".to_string()), Some("h".to_string())];
    assert_eq!(parts(&ExclusionRule::from_groups(&groups)), ("h", "", "", ""));
    assert_eq!(parts(&ExclusionRule::from_groups(&Vec::new())), ("", "", "", ""));
}

#[test]
fn parse_rules_reads_every_token() {
    let rules = parse_rules(&list("%lo,host123,:53/udp"));
    assert_eq!(rules.len(), 3);
    assert_eq!(parts(&rules[0]), ("", "lo", "", ""));
    assert_eq!(parts(&rules[1]), ("host123", "", "", ""));
    assert_eq!(parts(&rules[2]), ("", "", "53", "udp"));
    assert_eq!(parse_rules(&None).len(), 0);
    assert_eq!(parse_rules(&list("")).len(), 1);
    assert_eq!(parse_rules(&list("a1,")).len(), 2);
}

#[test]
fn host_rule_excludes_the_host() {
    assert!(is_host_excluded("host123", &list("host123")));
    assert!(!is_host_excluded("host124", &list("host123")));
    assert!(!is_host_excluded("host12", &list("host123")));
    assert!(is_host_excluded("host123", &list("%lo,host123")));
}

#[test]
fn device_rule_does_not_exclude_the_host() {
    assert!(!is_host_excluded("host123", &list("host123%eth0")));
    assert!(!is_host_excluded("host123", &list("host123:22")));
    assert!(!is_host_excluded("host123", &list("host123/tcp")));
}

#[test]
fn nothing_is_excluded_without_a_rule_list() {
    assert!(!is_host_excluded("host123", &None));
    assert!(!is_device_excluded("host123", "lo", &None));
    assert!(!is_socket_excluded("host123", "10.0.0.1", "53", "udp", &None));
    assert!(!is_connection_excluded("h", "10.0.0.1", "53", "10.0.0.2", "53", "udp", &None));
}

#[test]
fn device_rule_without_host_excludes_on_any_host() {
    for host in ["h", "another.example", "10.0.0.1", ""] {
        assert!(is_device_excluded(host, "lo", &list("%lo")), "{:?}", host);
    }
    assert!(!is_device_excluded("h", "eth0", &list("%lo")));
}

#[test]
fn device_rule_with_host_excludes_on_that_host() {
    assert!(is_device_excluded("web1", "eth0", &list("web1%eth0")));
    assert!(!is_device_excluded("web2", "eth0", &list("web1%eth0")));
    assert!(!is_device_excluded("web1", "eth0", &list("web1%eth0:22")));
    assert!(!is_device_excluded("web1", "eth0", &list("web1%eth0/tcp")));
}

#[test]
fn port_rule_excludes_the_port_only() {
    assert!(is_socket_excluded("h", "10.0.0.1", "53", "udp", &list(":53/udp")));
    assert!(!is_socket_excluded("h", "10.0.0.1", "54", "udp", &list(":53/udp")));
    assert!(!is_socket_excluded("h", "10.0.0.1", "53", "tcp", &list(":53/udp")));
    assert!(is_socket_excluded("h", "10.0.0.1", "53", "tcp", &list(":53")));
    assert!(is_socket_excluded("h", "10.0.0.1", "53", "udp", &list(":53")));
}

#[test]
fn host_rule_excludes_its_sockets() {
    assert!(is_socket_excluded("web1", "10.0.0.1", "80", "tcp", &list("web1")));
    assert!(is_socket_excluded("web1", "10.0.0.1", "80", "tcp", &list("10.0.0.1")));
    assert!(!is_socket_excluded("web1", "10.0.0.1", "80", "tcp", &list("web2")));
    assert!(is_socket_excluded("web1", "10.0.0.1", "80", "tcp", &list("web1:80")));
    assert!(!is_socket_excluded("web1", "10.0.0.1", "80", "tcp", &list("web2:80")));
    assert!(!is_socket_excluded("web1", "10.0.0.1", "80", "tcp", &list("web1%eth0")));
    assert!(!is_socket_excluded("web1", "10.0.0.1", "80", "tcp", &list("%eth0:80/tcp")));
}

#[test]
fn protocol_rule_needs_the_port_too() {
    assert!(!is_socket_excluded("web1", "10.0.0.1", "80", "udp", &list("web1/udp")));
    assert!(!is_socket_excluded("web1", "10.0.0.1", "80", "udp", &list("/udp")));
    assert!(is_socket_excluded("web1", "10.0.0.1", "", "udp", &list("/udp")));
    assert!(is_socket_excluded("web1", "10.0.0.1", "", "udp", &list("web1/udp")));
}

#[test]
fn the_three_ways_to_exclude_a_socket() {
    let endpoint = rule("web1", "", "", "");
    assert!(endpoint.excludes_socket("web1", "10.0.0.1", "80", "tcp"));
    assert!(endpoint.excludes_socket("other", "web1", "80", "tcp"));
    assert!(!endpoint.excludes_socket("other", "10.0.0.1", "80", "tcp"));
    let by_port = rule("", "", "80", "");
    assert!(by_port.excludes_socket("web1", "10.0.0.1", "80", "tcp"));
    assert!(!by_port.excludes_socket("web1", "10.0.0.1", "81", "tcp"));
    let by_protocol = rule("", "", "", "tcp");
    assert!(!by_protocol.excludes_socket("web1", "10.0.0.1", "80", "tcp"));
    assert!(by_protocol.excludes_socket("web1", "10.0.0.1", "", "tcp"));
    let unset_protocol = rule("", "", "80", "");
    assert!(unset_protocol.excludes_socket("web1", "10.0.0.1", "81", ""));
    assert!(!unset_protocol.excludes_socket("web1", "10.0.0.1", "81", "tcp"));
    let device = rule("web1", "eth0", "", "");
    assert!(!device.excludes_socket("web1", "10.0.0.1", "80", "tcp"));
}

#[test]
fn a_rule_without_parts() {
    let none = rule("", "", "", "");
    assert!(!none.excludes_host("web1"));
    assert!(!none.excludes_host(""));
    assert!(!none.excludes_device("web1", "eth0"));
    assert!(!none.excludes_device("web1", ""));
    assert!(!none.excludes_socket("web1", "10.0.0.1", "80", "tcp"));
    assert!(none.excludes_socket("web1", "10.0.0.1", "", "tcp"));
    assert!(none.excludes_socket("web1", "", "80", "tcp"));
    assert!(!is_socket_excluded("web1", "10.0.0.1", "80", "tcp", &list("#autossh,")));
}

#[test]
fn rules_are_tried_in_turn() {
    let rules = vec![rule("", "lo", "", ""), rule("web1", "", "", ""), rule("", "", "53", "udp")];
    assert!(rules_exclude_host(&rules, "web1"));
    assert!(!rules_exclude_host(&rules, "web2"));
    assert!(rules_exclude_device(&rules, "web2", "lo"));
    assert!(!rules_exclude_device(&rules, "web2", "eth0"));
    assert!(rules_exclude_socket(&rules, "web2", "10.0.0.2", "53", "udp"));
    assert!(rules_exclude_socket(&rules, "web1", "10.0.0.1", "80", "tcp"));
    assert!(!rules_exclude_socket(&rules, "web2", "10.0.0.2", "80", "tcp"));
    assert!(!rules_exclude_host(&Vec::new(), "web1"));
}

#[test]
fn a_connection_is_excluded_with_both_sockets() {
    let both = list(":53/udp,:5353/udp");
    assert!(is_connection_excluded("h", "10.0.0.1", "53", "10.0.0.2", "5353", "udp", &both));
    let local_only = list(":53/udp");
    assert!(is_socket_excluded("h", "10.0.0.1", "53", "udp", &local_only));
    assert!(!is_socket_excluded("h", "10.0.0.2", "5353", "udp", &local_only));
    assert!(!is_connection_excluded("h", "10.0.0.1", "53", "10.0.0.2", "5353", "udp", &local_only));
    let remote_only = list(":5353/udp");
    assert!(!is_connection_excluded("h", "10.0.0.1", "53", "10.0.0.2", "5353", "udp", &remote_only));
    assert!(is_connection_excluded("h", "10.0.0.1", "53", "10.0.0.2", "53", "udp", &local_only));
    assert!(is_connection_excluded("h", "10.0.0.1", "40000", "10.0.0.2", "22", "tcp", &list("h")));
}

#[test]
fn a_connection_is_excluded_by_two_rules() {
    let rules = vec![rule("10.0.0.1", "", "", ""), rule("", "", "22", "tcp")];
    assert!(rules_exclude_connection(&rules, "h", "10.0.0.1", "40000", "10.0.0.2", "22", "tcp"));
    assert!(!rules_exclude_connection(&rules, "h", "10.0.0.3", "40000", "10.0.0.2", "22", "tcp"));
    assert!(!rules_exclude_connection(&rules, "h", "10.0.0.1", "40000", "10.0.0.2", "23", "tcp"));
}
