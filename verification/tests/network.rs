use net_topology::network::{has_few_colons, is_host_in_network, is_valid_hostname, range_holds};

fn strings(items: &[&str]) -> Vec<String> {
    items.iter().map(|item| item.to_string()).collect()
}

#[test]
fn hostnames_are_letters_digits_hyphens_and_dots() {
    assert!(is_valid_hostname("web1"));
    assert!(is_valid_hostname("web-1.example.com"));
    assert!(is_valid_hostname("a"));
    assert!(is_valid_hostname("10.0.0.1"));
    assert!(is_valid_hostname("A-Z"));
}

#[test]
fn hostnames_have_no_other_characters() {
    assert!(!is_valid_hostname("we_b"));
    assert!(!is_valid_hostname("web 1"));
    assert!(!is_valid_hostname("fe80::1"));
    assert!(!is_valid_hostname("wéb"));
    assert!(!is_valid_hostname("web/1"));
}

#[test]
fn hostnames_neither_start_nor_end_with_hyphen_or_dot() {
    assert!(!is_valid_hostname(""));
    assert!(!is_valid_hostname("-web"));
    assert!(!is_valid_hostname("web-"));
    assert!(!is_valid_hostname(".web"));
    assert!(!is_valid_hostname("web."));
    assert!(!is_valid_hostname("-"));
    assert!(!is_valid_hostname("."));
}

#[test]
fn a_range_holds_its_addresses() {
    assert!(range_holds("10.0.0.0/8", "10.1.2.3"));
    assert!(!range_holds("10.0.0.0/8", "11.1.2.3"));
    assert!(range_holds("192.168.1.1/24", "192.168.1.77"));
    assert!(!range_holds("192.168.1.1/24", "192.168.2.77"));
    assert!(range_holds("10.1.2.3", "10.1.2.3"));
    assert!(!range_holds("10.1.2.3", "10.1.2.4"));
    assert!(range_holds("0.0.0.0/0", "203.0.113.9"));
}

#[test]
fn a_range_may_be_given_with_a_netmask() {
    assert!(range_holds("10.0.0.0/255.0.0.0", "10.1.2.3"));
    assert!(!range_holds("10.0.0.0/255.255.0.0", "10.1.2.3"));
}

#[test]
fn an_ipv6_range_holds_ipv6_addresses() {
    assert!(range_holds("fc00::/7", "fc00::1"));
    assert!(range_holds("fc00::/7", "fd12:3456:789a::1"));
    assert!(!range_holds("fc00::/7", "fe80::1"));
    assert!(range_holds("2001:db8::/32", "2001:db8:0:1::5"));
    assert!(!range_holds("fc00::/7", "10.0.0.1"));
    assert!(!range_holds("10.0.0.0/8", "fc00::1"));
}

#[test]
fn what_is_no_address_is_in_no_range() {
    assert!(!range_holds("nonsense", "10.1.2.3"));
    assert!(!range_holds("10.0.0.0/8", "nonsense"));
    assert!(!range_holds("10.0.0.0/8", ""));
    assert!(!range_holds("", "10.1.2.3"));
    assert!(!range_holds("10.0.0.0/33", "10.1.2.3"));
    assert!(!range_holds("10.0.0.256/8", "10.1.2.3"));
}

#[test]
fn a_text_with_too_many_colons_is_not_read() {
    assert!(has_few_colons("1:2:3:4:5:6:7::"));
    assert!(has_few_colons(""));
    assert!(!has_few_colons("1:2:3:4:5:6:7:8::"));
    assert!(!range_holds("::/0", "1:2:3:4:5:6:7:8:9::1"));
    assert!(!range_holds("1:2:3:4:5:6:7:8:9::/0", "::1"));
    assert!(!is_host_in_network(
        &strings(&["1:2:3:4:5:6:7:8:9:a::1"]),
        "1:2:3:4:5:6:7:8:9:a::/0"
    ));
}

#[test]
fn a_host_is_in_network_with_one_address_in_one_range() {
    assert!(is_host_in_network(&strings(&["10.1.2.3"]), "10.0.0.0/8"));
    assert!(!is_host_in_network(&strings(&["192.168.1.5"]), "10.0.0.0/8"));
    assert!(is_host_in_network(&strings(&["192.168.1.5"]), "10.0.0.0/8,192.168.1.0/24"));
    assert!(is_host_in_network(&strings(&["172.16.0.1", "10.1.2.3"]), "10.0.0.0/8"));
    assert!(is_host_in_network(&strings(&["fd00::5", "203.0.113.9"]), "10.0.0.0/8,fc00::/7"));
    assert!(!is_host_in_network(&strings(&["fe80::5", "203.0.113.9"]), "10.0.0.0/8,fc00::/7"));
}

#[test]
fn a_host_without_addresses_is_in_no_network() {
    assert!(!is_host_in_network(&Vec::new(), "10.0.0.0/8"));
    assert!(!is_host_in_network(&Vec::new(), "0.0.0.0/0,::/0"));
}

#[test]
fn a_range_that_cannot_be_read_is_passed_over() {
    assert!(is_host_in_network(&strings(&["10.1.2.3"]), "nonsense,10.0.0.0/8"));
    assert!(is_host_in_network(&strings(&["10.1.2.3"]), ",10.0.0.0/8,"));
    assert!(!is_host_in_network(&strings(&["10.1.2.3"]), "nonsense"));
    assert!(!is_host_in_network(&strings(&["10.1.2.3"]), ""));
}

#[test]
fn white_space_around_a_range_does_not_count() {
    assert!(is_host_in_network(&strings(&["192.168.3.4"]), "10.0.0.0/8, 192.168.0.0/16"));
}

#[test]
fn odd_texts_are_read_or_refused() {
    let odd = [
        "", ":", "::", ":::", "::::", "1::", "::1", "/", "//", ".", "..", "1.2.3.4/", "/8",
        "1.2.3.4/1.2.3.4/5", "::/129", "::/128", "1:2:3:4:5:6:7:8/3", "1:2:3:4:5:6:7:8",
        "1:2:3:4:5:6:7::", "::2:3:4:5:6:7:8", "1:2:3:4::5:6:7", "::ffff:1.2.3.4",
        "::ffff:1.2.3.4/8", "::ffff:1.2.3.4/129", "::1.2.3.4.5", "a:b.c", "a.b:c.d", "1.2:3",
        "1:::2", "1.2.3.4:80", "+1.2.3.4", "1.2.3", "1.2", "1", "256.1.1.1", "1.2.3.4/255.0.0.0",
        "1.2.3.4/::", "fe80::1%eth0", " 10.0.0.1 ", "10.0.0.1/ 8", "g::1", "12345::", "::ffff:0:0",
        "::ffff:0.0.0.0", "1:2:3:4:5:6:1.2.3.4", "1:2:3:4:5:6:7:1.2.3.4", "0x10.1.1.1", "-1.2.3.4",
    ];
    for range in odd {
        for address in odd {
            let held = range_holds(range, address);
            assert_eq!(held, range_holds(range, address), "{:?} {:?}", range, address);
        }
    }
    assert!(range_holds("::/0", "1:2:3:4:5:6:7:8"));
    assert!(!range_holds("::/129", "::1"));
}
