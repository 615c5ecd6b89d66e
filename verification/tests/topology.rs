use conntracktor::topology::{EndpointType, Topology};

#[test]
fn classify_interface_by_name_prefix() {
    assert_eq!(Topology::classify_interface("wlan0"), EndpointType::Wireless);
    assert_eq!(Topology::classify_interface("ra0"), EndpointType::Wireless);
    assert_eq!(Topology::classify_interface("ath1"), EndpointType::Wireless);
    assert_eq!(Topology::classify_interface("mt7615"), EndpointType::Wireless);
    assert_eq!(Topology::classify_interface("phy0-ap0"), EndpointType::Wireless);
    assert_eq!(Topology::classify_interface("eth1"), EndpointType::Wired);
    assert_eq!(Topology::classify_interface("lan2"), EndpointType::Wired);
    assert_eq!(Topology::classify_interface("sw0"), EndpointType::Wired);
    assert_eq!(Topology::classify_interface("enp3s0"), EndpointType::Wired);
    assert_eq!(Topology::classify_interface("wg0"), EndpointType::Vpn);
    assert_eq!(Topology::classify_interface("tun0"), EndpointType::Vpn);
    assert_eq!(Topology::classify_interface("tap1"), EndpointType::Vpn);
    assert_eq!(Topology::classify_interface("tailscale0"), EndpointType::Vpn);
    assert_eq!(Topology::classify_interface("br-lan"), EndpointType::Unknown);
    assert_eq!(Topology::classify_interface("lo"), EndpointType::Unknown);
    assert_eq!(Topology::classify_interface(""), EndpointType::Unknown);
}

#[test]
fn endpoint_icons() {
    assert_eq!(EndpointType::Router.icon(), "🖧 ");
    assert_eq!(EndpointType::Wired.icon(), "💻");
    assert_eq!(EndpointType::Wireless.icon(), "📶");
    assert_eq!(EndpointType::Vpn.icon(), "🛡️");
    assert_eq!(EndpointType::Remote.icon(), "🌐");
    assert_eq!(EndpointType::Unknown.icon(), "❓");
    assert_eq!(EndpointType::default(), EndpointType::Unknown);
}

#[test]
fn global_ipv4_addresses() {
    assert!(Topology::is_global("8.8.8.8"));
    assert!(Topology::is_global("172.32.0.1"));
    assert!(Topology::is_global("100.64.0.1"));
    assert!(!Topology::is_global("192.168.1.1"));
    assert!(!Topology::is_global("10.0.0.1"));
    assert!(!Topology::is_global("172.16.5.4"));
    assert!(!Topology::is_global("127.0.0.1"));
    assert!(!Topology::is_global("169.254.10.20"));
    assert!(!Topology::is_global("255.255.255.255"));
    assert!(!Topology::is_global("192.0.2.1"));
    assert!(!Topology::is_global("198.51.100.7"));
    assert!(!Topology::is_global("203.0.113.9"));
    assert!(!Topology::is_global("0.0.0.0"));
}

#[test]
fn global_ipv6_addresses() {
    assert!(Topology::is_global("2001:4860:4860::8888"));
    assert!(Topology::is_global("2001:db9::1"));
    assert!(Topology::is_global("fec0::1"));
    assert!(Topology::is_global("::ffff:192.168.1.1"));
    assert!(!Topology::is_global("fe80::1"));
    assert!(!Topology::is_global("febf:ffff::1"));
    assert!(!Topology::is_global("fc00::1"));
    assert!(!Topology::is_global("fd12:3456:789a::1"));
    assert!(!Topology::is_global("ff02::1"));
    assert!(!Topology::is_global("2001:db8::1"));
    assert!(!Topology::is_global("2001:DB8:0:1::5"));
    assert!(!Topology::is_global("::1"));
    assert!(!Topology::is_global("::"));
    assert!(!Topology::is_global("0:0:0:0:0:0:0:0"));
}

#[test]
fn text_that_is_no_address_is_not_global() {
    assert!(!Topology::is_global("not-an-ip"));
    assert!(!Topology::is_global(""));
    assert!(!Topology::is_global("256.1.1.1"));
    assert!(!Topology::is_global("1.2.3"));
    assert!(!Topology::is_global("01.2.3.4"));
    assert!(!Topology::is_global("1.2.3.4 "));
    assert!(!Topology::is_global("1:2:3:4:5:6:7:8:9"));
    assert!(!Topology::is_global("2001::db8::1"));
}

#[test]
fn get_type_without_entries() {
    let t = Topology::new();
    assert_eq!(t.get_type("8.8.8.8"), EndpointType::Remote);
    assert_eq!(t.get_type("192.168.1.99"), EndpointType::Unknown);
    assert_eq!(t.get_type(""), EndpointType::Unknown);
}

#[test]
fn get_type_after_insert() {
    let mut t = Topology::new();
    t.insert("192.168.1.10", EndpointType::Wired);
    t.insert("8.8.8.8", EndpointType::Router);
    assert_eq!(t.get_type("192.168.1.10"), EndpointType::Wired);
    assert_eq!(t.get_type("8.8.8.8"), EndpointType::Router);
    assert_eq!(t.get_type("1.1.1.1"), EndpointType::Remote);
    t.insert("192.168.1.10", EndpointType::Wireless);
    assert_eq!(t.get_type("192.168.1.10"), EndpointType::Wireless);
}

#[test]
fn wifi_interfaces_from_iw_dev() {
    let out = "phy#1\n\tInterface wlan1\n\t\tifindex 6\n\t\ttype AP\nphy#0\n\tInterface wlan0\n\t\tifindex 5\n";
    let names = Topology::wifi_interfaces(out);
    assert_eq!(names, vec!["wlan1".to_string(), "wlan0".to_string()]);
    assert!(Topology::wifi_interfaces("").is_empty());
    assert!(Topology::wifi_interfaces("Interface\n").is_empty());
}

#[test]
fn station_macs_are_lower_cased() {
    let out = "Station 34:CE:00:86:A0:C4 (on wlan0)\n\tinactive time:\t10 ms\nStation aa:bb:cc:dd:ee:ff (on wlan0)\n";
    let macs = Topology::station_macs(out);
    assert_eq!(
        macs,
        vec!["34:ce:00:86:a0:c4".to_string(), "aa:bb:cc:dd:ee:ff".to_string()]
    );
}

#[test]
fn build_topology_from_command_outputs() {
    let addr = "1: lo: <LOOPBACK,UP,LOWER_UP> mtu 65536 qdisc noqueue state UNKNOWN\n    link/loopback 00:00:00:00:00:00 brd 00:00:00:00:00:00\n    inet 127.0.0.1/8 scope host lo\n    inet6 ::1/128 scope host\n4: br-lan: <BROADCAST,MULTICAST,UP,LOWER_UP> mtu 1500\n    inet 192.168.1.1/24 brd 192.168.1.255 scope global br-lan\n";
    let neigh = "192.168.1.20 dev br-lan lladdr AA:BB:CC:00:11:22 REACHABLE\n192.168.1.30 dev br-lan lladdr 00:11:22:33:44:55 STALE\n10.8.0.2 dev wg0 lladdr 00:00:00:00:00:01 REACHABLE\n192.168.2.5 dev eth1 FAILED\n192.168.1.40 dev br-lan INCOMPLETE extra\n192.168.3.7 dev phy0-ap0 lladdr 00:00:00:00:00:02 STALE\n";
    let wifi = vec!["aa:bb:cc:00:11:22".to_string()];
    let t = Topology::build_topology(Some(addr), Some(neigh), &wifi);
    assert_eq!(t.get_type("127.0.0.1"), EndpointType::Router);
    assert_eq!(t.get_type("::1"), EndpointType::Router);
    assert_eq!(t.get_type("192.168.1.1"), EndpointType::Router);
    assert_eq!(t.get_type("192.168.1.20"), EndpointType::Wireless);
    assert_eq!(t.get_type("192.168.1.30"), EndpointType::Wired);
    assert_eq!(t.get_type("10.8.0.2"), EndpointType::Vpn);
    assert_eq!(t.get_type("192.168.2.5"), EndpointType::Unknown);
    assert_eq!(t.get_type("192.168.1.40"), EndpointType::Unknown);
    assert_eq!(t.get_type("192.168.3.7"), EndpointType::Wireless);
    assert_eq!(t.get_type("9.9.9.9"), EndpointType::Remote);
}

#[test]
fn build_topology_without_outputs() {
    let t = Topology::build_topology(None, None, &Vec::new());
    assert_eq!(t.get_type("192.168.1.1"), EndpointType::Unknown);
    assert_eq!(t.get_type("1.1.1.1"), EndpointType::Remote);
}

#[test]
fn bridge_client_kind_from_lowered_mac() {
    let macs: Vec<Vec<char>> = vec!["aa:bb:cc:00:11:22".chars().collect()];
    let wifi: Vec<char> = "aa:bb:cc:00:11:22".chars().collect();
    let wired: Vec<char> = "00:11:22:33:44:55".chars().collect();
    assert_eq!(Topology::bridge_client_kind(&wifi, &macs), EndpointType::Wireless);
    assert_eq!(Topology::bridge_client_kind(&wired, &macs), EndpointType::Wired);
    assert_eq!(Topology::bridge_client_kind(&wifi, &Vec::new()), EndpointType::Wired);
}
