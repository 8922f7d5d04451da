use tcp_optimiser::daemon::{adjusted_pacing, qdisc_check_interval, should_apply_wifi, should_probe_vowifi};
use tcp_optimiser::network::IfaceMode;

#[test]
fn wifi_applies_on_registration_or_timeout_only_once() {
    assert!(should_apply_wifi(false, true, 0));
    assert!(!should_apply_wifi(false, false, 9));
    assert!(should_apply_wifi(false, false, 10));
    assert!(!should_apply_wifi(true, true, 20));
}

#[test]
fn vowifi_probe_is_rate_limited() {
    assert!(should_probe_vowifi(None));
    assert!(!should_probe_vowifi(Some(4)));
    assert!(should_probe_vowifi(Some(5)));
}

#[test]
fn qdisc_watchdog_uses_interface_specific_intervals() {
    assert_eq!(qdisc_check_interval(IfaceMode::WiFi), 60);
    assert_eq!(qdisc_check_interval(IfaceMode::Cellular), 120);
}

#[test]
fn pacing_adjustment_preserves_wifi_band_policy() {
    assert_eq!(adjusted_pacing(200, 300, Some(2412)), (150, 225));
    assert_eq!(adjusted_pacing(200, 300, Some(5180)), (200, 300));
    assert_eq!(adjusted_pacing(200, 300, Some(6115)), (250, 375));
    assert_eq!(adjusted_pacing(200, 300, None), (200, 300));
}

use tcp_optimiser::daemon::{module_description, set_description};

#[test]
fn description_line_is_replaced_and_others_kept() {
    let desc = module_description(IfaceMode::WiFi, "bbr");
    assert_eq!(
        desc,
        "TCP Optimisations & dynamic congestion control | iface: Wi-Fi \u{1f6dc} | algo: bbr"
    );
    let content = "id=tcp_optimiser\r\ndescription=old\nversion=3.0.0";
    assert_eq!(
        set_description(content, "new"),
        "id=tcp_optimiser\ndescription=new\nversion=3.0.0\n"
    );
    assert_eq!(set_description("", "new"), "\n");
}
