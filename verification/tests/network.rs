use tcp_optimiser::network::{iface_mode, route_change_args, IfaceMode};

#[test]
fn classifies_common_android_interfaces() {
    assert_eq!(iface_mode("wlan0"), IfaceMode::WiFi);
    assert_eq!(iface_mode("swlan0"), IfaceMode::WiFi);
    assert_eq!(iface_mode("rmnet_data0"), IfaceMode::Cellular);
    assert_eq!(iface_mode("ccemni0"), IfaceMode::Cellular);
    assert_eq!(iface_mode("tun0"), IfaceMode::Unknown);
}

#[test]
fn rewrites_route_metrics_without_duplicates() {
    let args = route_change_args(
        "default via 192.168.1.1 dev wlan0 proto dhcp initcwnd 4 initrwnd 8",
        "wlan0",
        59,
    )
    .unwrap();
    assert_eq!(args.iter().filter(|value| value.as_str() == "initcwnd").count(), 1);
    assert_eq!(args.iter().filter(|value| value.as_str() == "initrwnd").count(), 1);
    assert_eq!(&args[args.len() - 4..], ["initcwnd", "10", "initrwnd", "59"]);
}

#[test]
fn route_matching_uses_exact_interface_token() {
    assert!(route_change_args("default dev wlan01", "wlan0", 10).is_none());
    assert!(route_change_args("default dev wlan0", "wlan0", 10).is_some());
}

use tcp_optimiser::network::{route_changes, route_update_result, NetError};

#[test]
fn route_changes_cover_every_route_of_the_interface() {
    let routes = "default via 10.0.0.1 dev wlan0\n10.0.0.0/24 dev wlan0 proto kernel\n192.168.0.0/24 dev rmnet_data0\n";
    let changes = route_changes(routes, "wlan0", 20);
    assert_eq!(changes.len(), 2);
    assert_eq!(changes[1][..4], ["route", "change", "10.0.0.0/24", "dev"]);
    assert_eq!(route_update_result("wlan0", 0, &Vec::new()), Err(NetError::NoRoutes("wlan0".to_string())));
    assert_eq!(route_update_result("wlan0", 2, &Vec::new()), Ok(()));
    assert_eq!(
        route_update_result("wlan0", 2, &vec!["RTNETLINK answers: busy".to_string(), "x".to_string()]),
        Err(NetError::RoutesFailed("failed to update 2/2 routes: RTNETLINK answers: busy; x".to_string()))
    );
}

use tcp_optimiser::network::parse_root_qdisc;

#[test]
fn root_qdisc_is_read_from_tc_output() {
    let output = "qdisc mq 0: root \nqdisc fq_codel 0: parent :1 limit 10240p\n";
    assert_eq!(parse_root_qdisc(output), Some("mq".to_string()));
    assert_eq!(parse_root_qdisc("qdisc noqueue 0: dev lo root refcnt 2\n"), Some("noqueue".to_string()));
    assert_eq!(parse_root_qdisc("qdisc fq_codel 0: parent :1\n"), None);
}
