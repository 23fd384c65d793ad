use bevygap::resolver::{
    generate_connection_hosts, has_port, resolution_target, split_port, ResolvedAddress,
};

fn v4(ip: &str, port: u16) -> ResolvedAddress {
    ResolvedAddress {
        is_ipv6: false,
        socket_text: format!("{}:{}", ip, port),
        ip_text: ip.to_string(),
    }
}

fn v6(ip: &str, port: u16) -> ResolvedAddress {
    ResolvedAddress {
        is_ipv6: true,
        socket_text: format!("[{}]:{}", ip, port),
        ip_text: ip.to_string(),
    }
}

fn pair(label: &str, address: &str) -> (String, String) {
    (label.to_string(), address.to_string())
}

#[test]
fn test_generate_connection_hosts_with_ip() {
    // A literal address resolves to itself.
    let resolved = vec![v4("192.168.1.1", 4222)];
    let hosts = generate_connection_hosts("192.168.1.1:4222", &resolved);
    assert_eq!(hosts.len(), 1);
    assert_eq!(hosts[0], ("original".to_string(), "192.168.1.1:4222".to_string()));
}

#[test]
fn test_generate_connection_hosts_with_hostname() {
    let resolved = vec![v4("127.0.0.1", 4222), v6("::1", 4222)];
    let hosts = generate_connection_hosts("localhost:4222", &resolved);
    assert!(!hosts.is_empty());
    assert_eq!(hosts[0], ("original".to_string(), "localhost:4222".to_string()));
    assert!(hosts.len() >= 1);
    assert_eq!(
        hosts,
        vec![
            pair("original", "localhost:4222"),
            pair("IPv6", "[::1]:4222"),
            pair("IPv4", "127.0.0.1:4222"),
        ]
    );
}

#[test]
fn test_generate_connection_hosts_without_port() {
    // Resolution failed: nothing was resolved.
    let hosts = generate_connection_hosts("example.com", &Vec::new());
    assert!(!hosts.is_empty());
    assert_eq!(hosts[0], ("original".to_string(), "example.com".to_string()));
    assert_eq!(hosts.len(), 1);
}

#[test]
fn resolved_addresses_without_port_are_written_alone() {
    let resolved = vec![
        v4("93.184.216.34", 4222),
        v6("2606:2800:220:1:248:1893:25c8:1946", 4222),
        v4("93.184.216.35", 4222),
    ];
    let hosts = generate_connection_hosts("example.com", &resolved);
    assert_eq!(
        hosts,
        vec![
            pair("original", "example.com"),
            pair("IPv6", "[2606:2800:220:1:248:1893:25c8:1946]"),
            pair("IPv4", "93.184.216.34"),
            pair("IPv4", "93.184.216.35"),
        ]
    );
}

#[test]
fn each_address_is_kept_once_at_its_first_place() {
    let resolved = vec![
        v4("10.0.0.1", 4222),
        v6("fe80::1", 4222),
        v4("10.0.0.2", 4222),
        v4("10.0.0.1", 4222),
        v6("fe80::1", 4222),
    ];
    let hosts = generate_connection_hosts("bus.internal:4222", &resolved);
    assert_eq!(
        hosts,
        vec![
            pair("original", "bus.internal:4222"),
            pair("IPv6", "[fe80::1]:4222"),
            pair("IPv4", "10.0.0.1:4222"),
            pair("IPv4", "10.0.0.2:4222"),
        ]
    );
}

#[test]
fn literal_addresses_have_one_candidate() {
    let hosts = generate_connection_hosts("10.1.2.3", &vec![v4("10.1.2.3", 4222)]);
    assert_eq!(hosts, vec![pair("original", "10.1.2.3")]);
    let hosts = generate_connection_hosts("[::1]:4222", &vec![v6("::1", 4222)]);
    assert_eq!(hosts, vec![pair("original", "[::1]:4222")]);
    let hosts = generate_connection_hosts("[::1]", &vec![v6("::1", 4222)]);
    assert_eq!(hosts, vec![pair("original", "[::1]")]);
}

#[test]
fn port_is_what_follows_the_last_colon() {
    assert!(has_port("localhost:4222"));
    assert!(has_port("host:0"));
    assert!(has_port("host:65535"));
    assert!(has_port("host:+80"));
    assert!(has_port("a:b:007"));
    assert!(!has_port("host:65536"));
    assert!(!has_port("host:"));
    assert!(!has_port("host:-1"));
    assert!(!has_port("host:12a"));
    assert!(!has_port("host"));
    assert!(!has_port(""));
    assert!(!has_port("[::1]"));
    assert!(has_port("::1"));
}

#[test]
fn split_port_parts_host_and_port() {
    assert_eq!(
        split_port("localhost:4222"),
        ("localhost".to_string(), Some(":4222".to_string()))
    );
    assert_eq!(split_port("example.com"), ("example.com".to_string(), None));
    assert_eq!(split_port("[::1]:99"), ("[::1]".to_string(), Some(":99".to_string())));
    assert_eq!(split_port("host:port"), ("host:port".to_string(), None));
    assert_eq!(split_port(":1"), ("".to_string(), Some(":1".to_string())));
}

#[test]
fn resolution_uses_the_default_port_where_none_is_named() {
    assert_eq!(resolution_target("example.com"), "example.com:4222");
    assert_eq!(resolution_target("example.com:4000"), "example.com:4000");
    assert_eq!(resolution_target("[::1]"), "[::1]:4222");
    assert_eq!(resolution_target("host:nope"), "host:nope:4222");
}
