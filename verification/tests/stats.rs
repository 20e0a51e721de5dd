use oatbar::protocol::I3Value;
use oatbar::stats::{cpu, get_interfaces, memory, network, sockaddr_to_str, Family, IfAddr};
use oatbar::vars::NameMap;

fn entry(name: &str, family: Family, address: Option<&str>, running: bool) -> IfAddr {
    IfAddr {
        interface_name: name.into(),
        running,
        up: true,
        address: address.map(|a| a.to_string()),
        family,
        netmask: None,
        broadcast: None,
        destination: None,
    }
}

fn field_names(other: &[(String, I3Value)]) -> Vec<&str> {
    other.iter().map(|(k, _)| k.as_str()).collect()
}

fn json(other: &[(String, I3Value)], key: &str) -> Option<String> {
    other.iter().find(|(k, _)| k == key).and_then(|(_, v)| match v {
        I3Value::Json(s) => Some(s.clone()),
        _ => None,
    })
}

#[test]
fn socket_addresses_lose_a_zero_port() {
    assert_eq!(sockaddr_to_str("192.168.1.5:0"), "192.168.1.5");
    assert_eq!(sockaddr_to_str("[fe80::1]:0"), "[fe80::1]");
    assert_eq!(sockaddr_to_str("10.0.0.1:80"), "10.0.0.1:80");
    assert_eq!(sockaddr_to_str("aa:bb:cc:dd:ee:ff"), "aa:bb:cc:dd:ee:ff");
    assert_eq!(sockaddr_to_str(":0"), "");
    assert_eq!(sockaddr_to_str("0"), "0");
}

#[test]
fn interfaces_are_grouped_by_name_and_family() {
    let mut with_mask = entry("eth0", Family::Inet, Some("192.168.1.5:0"), true);
    with_mask.netmask = Some("255.255.255.0:0".into());
    let addrs = vec![
        entry("wlan0", Family::Inet, None, false),
        entry("eth0", Family::Link, Some("aa:bb:cc:dd:ee:ff"), true),
        with_mask,
        entry("lo", Family::Inet, Some("127.0.0.1:0"), true),
        entry("eth0", Family::Inet6, Some("[fe80::1]:0"), true),
        entry("dummy", Family::Other, Some("x"), true),
    ];
    let interfaces = get_interfaces(&addrs);
    let names: Vec<&str> = interfaces.iter().map(|(n, _)| n.as_str()).collect();
    assert_eq!(names, vec!["dummy", "eth0", "lo"]);
    let (_, dummy) = &interfaces[0];
    assert!(dummy.mac.is_empty() && dummy.ipv4.is_empty() && dummy.ipv6.is_empty());
    let (_, eth0) = &interfaces[1];
    assert_eq!(eth0.mac.len(), 1);
    assert_eq!(eth0.mac[0].address.as_deref(), Some("aa:bb:cc:dd:ee:ff"));
    assert_eq!(eth0.ipv4.len(), 1);
    assert_eq!(eth0.ipv4[0].address.as_deref(), Some("192.168.1.5"));
    assert_eq!(eth0.ipv4[0].netmask.as_deref(), Some("255.255.255.0"));
    assert_eq!(eth0.ipv6[0].address.as_deref(), Some("[fe80::1]"));
    let (_, lo) = &interfaces[2];
    assert_eq!(lo.ipv4[0].address.as_deref(), Some("127.0.0.1"));
}

#[test]
fn network_block_shows_the_first_running_address_and_rates() {
    let addrs = vec![
        entry("eth0", Family::Inet, Some("10.0.0.2:0"), false),
        entry("eth0", Family::Inet, Some("10.0.0.3:0"), true),
        entry("eth0", Family::Link, Some("aa:bb:cc:dd:ee:ff"), true),
    ];
    let interfaces = get_interfaces(&addrs);
    let (name, eth0) = &interfaces[0];
    let mut last = NameMap::new();
    let first = network(name, eth0, Some((1000, 500)), &mut last);
    assert_eq!(first.len(), 1);
    assert_eq!(first[0].full_text, "eth0: 10.0.0.3");
    assert_eq!(first[0].name.as_deref(), Some("net"));
    assert_eq!(first[0].instance.as_deref(), Some("eth0"));
    assert_eq!(
        field_names(&first[0].other),
        vec!["ipv4_0_run", "ipv4_0_up", "ipv4_0_addr", "ipv4_1_run", "ipv4_1_up", "ipv4_1_addr", "mac_0_run", "mac_0_up", "mac_0_addr"]
    );
    assert_eq!(last.get("eth0"), Some(&(1000, 500)));
    let second = network(name, eth0, Some((1600, 900)), &mut last);
    assert_eq!(json(&second[0].other, "rx_per_sec").as_deref(), Some("600"));
    assert_eq!(json(&second[0].other, "tx_per_sec").as_deref(), Some("400"));
    assert_eq!(last.get("eth0"), Some(&(1600, 900)));
    let third = network(name, eth0, None, &mut last);
    assert!(json(&third[0].other, "rx_per_sec").is_none());
    assert_eq!(last.get("eth0"), Some(&(1600, 900)));
}

#[test]
fn network_block_of_an_interface_without_running_address_is_down() {
    let addrs = vec![entry("eth1", Family::Inet6, Some("[fe80::2]:0"), false)];
    let interfaces = get_interfaces(&addrs);
    let (name, eth1) = &interfaces[0];
    let mut last = NameMap::new();
    let blocks = network(name, eth1, None, &mut last);
    assert_eq!(blocks[0].full_text, "eth1: down");
    assert!(last.get("eth1").is_none());
}

#[test]
fn memory_block_counts_used_memory() {
    let blocks = memory(8_000_000_000, 2_000_000_000, "7.5 GiB");
    assert_eq!(blocks[0].full_text, "mem: 75% 7.5 GiB");
    assert_eq!(blocks[0].name.as_deref(), Some("memory"));
    assert_eq!(field_names(&blocks[0].other), vec!["percent", "used", "free", "total"]);
    assert_eq!(json(&blocks[0].other, "used").as_deref(), Some("6000000000"));
    assert_eq!(json(&blocks[0].other, "percent").as_deref(), Some("75"));
    let full = memory(3, 0, "3 B");
    assert_eq!(full[0].full_text, "mem:100% 3 B");
}

#[test]
fn cpu_block_pads_the_percentage() {
    let blocks = cpu(7, Some(45));
    assert_eq!(blocks[0].full_text, "cpu:  7%");
    assert_eq!(json(&blocks[0].other, "percent").as_deref(), Some("7"));
    assert_eq!(json(&blocks[0].other, "temp_c").as_deref(), Some("45"));
    let busy = cpu(100, None);
    assert_eq!(busy[0].full_text, "cpu:100%");
    assert_eq!(field_names(&busy[0].other), vec!["percent"]);
}
