use tcp_optimiser::stats::{parse_iface_bytes, parse_sockstat, parse_tcp_snmp};

const SNMP: &str = "Tcp: RtoAlgorithm InSegs OutSegs RetransSegs\nTcp: 1 120 90 3\n";
const DEV: &str =
    "Inter-| Receive | Transmit\n wlan0: 1000 1 2 3 4 5 6 7 2000 9 10 11 12 13 14 15\n";
const SOCK: &str = "sockets: used 100\nTCP: inuse 8 orphan 2 tw 3 alloc 10 mem 4\n";

#[test]
fn keeps_tcp_segments_separate_from_interface_bytes() {
    let tcp = parse_tcp_snmp(SNMP).unwrap();
    let iface = parse_iface_bytes(DEV, "wlan0").unwrap();
    assert_eq!((tcp.in_segs, tcp.out_segs, tcp.retrans), (120, 90, 3));
    assert_eq!((iface.rx_bytes, iface.tx_bytes), (1000, 2000));
}

#[test]
fn parses_named_sockstat_fields() {
    let sock = parse_sockstat(SOCK).unwrap();
    assert_eq!(
        (sock.tcp_in_use, sock.tcp_orphan, sock.tcp_tw, sock.tcp_alloc, sock.tcp_mem),
        (8, 2, 3, 10, 4)
    );
}

use tcp_optimiser::stats::{count_lines, dns_property};

#[test]
fn dns_property_keys_name_interface_and_slot() {
    assert_eq!(dns_property("[net.dns1]: [8.8.8.8]"), Some(("system".to_string(), "8.8.8.8".to_string())));
    assert_eq!(
        dns_property("[net.wlan0.dns2]: [2001:4860:4860::8888]"),
        Some(("wlan0".to_string(), "2001:4860:4860::8888".to_string()))
    );
    assert_eq!(dns_property("[net.dns1]: ["), None);
    assert_eq!(dns_property("[persist.sys.private_dns_mode]: [opportunistic]"), None);
    assert_eq!(dns_property("[net.dnsx]: [1.1.1.1]"), None);
    assert_eq!(dns_property("garbage"), None);
}

#[test]
fn line_count_of_tool_output() {
    assert_eq!(count_lines(""), 0);
    assert_eq!(count_lines("a\nb\n"), 2);
    assert_eq!(count_lines("a\nb"), 2);
}
