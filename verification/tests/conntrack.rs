use conntracktor::conntrack::{
    classify_offload, get_stats, parse_conntrack_line, ConntrackStats, OffloadStatus,
};
use conntracktor::topology::{EndpointType, Topology};

fn chars(s: &str) -> Vec<char> {
    s.chars().collect()
}

const TCP_OFFLOADED: &str = "ipv4     2 tcp      6 431999 ESTABLISHED src=192.168.1.20 dst=8.8.8.8 sport=51234 dport=443 src=8.8.8.8 dst=203.0.113.5 sport=443 dport=51234 [OFFLOAD] mark=0 zone=0 use=2";
const UDP_HW: &str = "ipv4     2 udp      17 29 src=192.168.1.30 dst=1.1.1.1 sport=5353 dport=53 src=1.1.1.1 dst=203.0.113.5 sport=53 dport=5353 ASSURED [HW_OFFLOAD] mark=0 use=2";
const UDP_PLAIN: &str = "ipv4     2 udp      17 29 src=192.168.1.40 dst=9.9.9.9 sport=5353 dport=53 [UNREPLIED] src=9.9.9.9 dst=192.168.1.40 sport=53 dport=5353 mark=0 use=1";

fn topology() -> Topology {
    let mut t = Topology::new();
    t.insert("192.168.1.20", EndpointType::Wired);
    t.insert("192.168.1.30", EndpointType::Wireless);
    t
}

#[test]
fn offload_labels() {
    assert_eq!(OffloadStatus::Software.label(), "SOFTWARE");
    assert_eq!(OffloadStatus::Hardware.label(), "HW (PPE)");
    assert_eq!(OffloadStatus::Cpu.label(), "CPU");
    assert_eq!(OffloadStatus::default(), OffloadStatus::Cpu);
}

#[test]
fn classify_offload_tags() {
    assert_eq!(classify_offload(&chars("a [HW_OFFLOAD] b")), OffloadStatus::Hardware);
    assert_eq!(classify_offload(&chars("a [OFFLOAD] b")), OffloadStatus::Software);
    assert_eq!(
        classify_offload(&chars("[OFFLOAD] [HW_OFFLOAD]")),
        OffloadStatus::Hardware
    );
    assert_eq!(classify_offload(&chars("[ASSURED] mark=0")), OffloadStatus::Cpu);
    assert_eq!(classify_offload(&chars("OFFLOAD")), OffloadStatus::Cpu);
    assert_eq!(classify_offload(&chars("")), OffloadStatus::Cpu);
}

#[test]
fn parse_tcp_line() {
    let topo = topology();
    let c = parse_conntrack_line(TCP_OFFLOADED, &topo).unwrap();
    assert_eq!(c.protocol, "tcp");
    assert_eq!(c.status, "ESTABLISHED");
    assert_eq!(c.src_ip, "192.168.1.20");
    assert_eq!(c.src_type, EndpointType::Wired);
    assert_eq!(c.dst_ip, "8.8.8.8");
    assert_eq!(c.dst_type, EndpointType::Remote);
    assert_eq!(c.offload, OffloadStatus::Software);
}

#[test]
fn parse_udp_line_with_bare_flag() {
    let topo = topology();
    let c = parse_conntrack_line(UDP_HW, &topo).unwrap();
    assert_eq!(c.protocol, "udp");
    assert_eq!(c.status, "ASSURED");
    assert_eq!(c.src_ip, "192.168.1.30");
    assert_eq!(c.src_type, EndpointType::Wireless);
    assert_eq!(c.dst_ip, "1.1.1.1");
    assert_eq!(c.offload, OffloadStatus::Hardware);
}

#[test]
fn parse_udp_line_with_bracketed_flag_has_no_status() {
    let topo = topology();
    let c = parse_conntrack_line(UDP_PLAIN, &topo).unwrap();
    assert_eq!(c.status, "");
    assert_eq!(c.src_type, EndpointType::Unknown);
    assert_eq!(c.dst_type, EndpointType::Remote);
    assert_eq!(c.offload, OffloadStatus::Cpu);
}

#[test]
fn parse_line_without_addresses() {
    let topo = Topology::new();
    let c = parse_conntrack_line("a b icmp c d e", &topo).unwrap();
    assert_eq!(c.protocol, "icmp");
    assert_eq!(c.src_ip, "");
    assert_eq!(c.dst_ip, "");
    assert_eq!(c.status, "");
    assert_eq!(c.src_type, EndpointType::Unknown);
}

#[test]
fn short_lines_are_rejected() {
    let topo = Topology::new();
    assert!(parse_conntrack_line("ipv4 2 tcp 6 100", &topo).is_none());
    assert!(parse_conntrack_line("", &topo).is_none());
}

#[test]
fn stats_from_table() {
    let topo = topology();
    let lines = vec![
        TCP_OFFLOADED.to_string(),
        UDP_HW.to_string(),
        "garbage".to_string(),
        UDP_PLAIN.to_string(),
    ];
    let s = get_stats(Some("65536\n"), Some(&lines), &topo);
    assert_eq!(s.total, 4);
    assert_eq!(s.max, 65536);
    assert_eq!(s.connections.len(), 3);
    assert_eq!(s.software, 1);
    assert_eq!(s.hardware, 1);
    assert_eq!(s.cpu, 1);
    assert_eq!(s.cpu + s.software + s.hardware, s.connections.len() as u32);
    assert_eq!(s.connections[2].src_ip, "192.168.1.40");
}

#[test]
fn stats_limit_falls_back() {
    let topo = Topology::new();
    let empty: Vec<String> = Vec::new();
    assert_eq!(get_stats(Some("lots"), Some(&empty), &topo).max, 16384);
    assert_eq!(get_stats(None, Some(&empty), &topo).max, 16384);
    assert_eq!(get_stats(Some("4294967296"), Some(&empty), &topo).max, 16384);
    assert_eq!(get_stats(Some(" 4294967295 "), Some(&empty), &topo).max, 4294967295);
    let s = get_stats(Some("100"), Some(&empty), &topo);
    assert_eq!(s.total, 0);
    assert!(s.connections.is_empty());
}

#[test]
fn stats_without_table_show_samples() {
    let topo = Topology::new();
    let s = get_stats(None, None, &topo);
    assert_eq!(s.total, 4);
    assert_eq!(s.max, 16384);
    assert_eq!(s.cpu, 1);
    assert_eq!(s.software, 1);
    assert_eq!(s.hardware, 2);
    assert_eq!(s.connections.len(), 4);
    assert_eq!(s.connections[0].dst_ip, "142.250.186.46");
    assert_eq!(s.connections[3].offload, OffloadStatus::Cpu);
    assert_eq!(s.cpu + s.software + s.hardware, s.connections.len() as u32);
}

#[test]
fn default_stats_are_empty() {
    let s = ConntrackStats::default();
    assert_eq!(s.total, 0);
    assert_eq!(s.max, 0);
    assert!(s.connections.is_empty());
}
