use tcp_optimiser::profile::{render_managed_config, socket_buffer_floor_for_memory, AutoRecommendations, NetworkProfile};
use tcp_optimiser::proxy::ProxySnapshot;

#[test]
fn buffer_floor_scales_without_reducing_legacy_floor() {
    assert_eq!(socket_buffer_floor_for_memory(Some(4 * 1_048_576)), 16_777_216);
    assert_eq!(socket_buffer_floor_for_memory(Some(8 * 1_048_576)), 25_165_824);
    assert_eq!(socket_buffer_floor_for_memory(Some(12 * 1_048_576)), 33_554_432);
}

#[test]
fn managed_config_is_stable_and_proxy_aware() {
    let profile = NetworkProfile {
        schema: 1,
        generated_epoch: 0,
        auto_tuning_enabled: true,
        kernel_release: "test".to_string(),
        kmi: None,
        arch: "aarch64".to_string(),
        memory_kib: Some(8 * 1_048_576),
        active_iface: Some("wlan0".to_string()),
        iface_mode: "Wi-Fi".to_string(),
        iface_mtu: Some(1500),
        proxy: ProxySnapshot {
            family: "mihomo".to_string(),
            label: "Mihomo".to_string(),
            mode: "tproxy".to_string(),
            transparent: true,
            tproxy: true,
            virtual_iface: None,
        },
        available_algorithms: vec!["cubic".to_string()],
        bundled_algorithms: Vec::new(),
        bundled_qdiscs: Vec::new(),
        wifi_algorithm: Some("cubic".to_string()),
        cellular_algorithm: Some("cubic".to_string()),
        qdisc_policy: "per_algorithm".to_string(),
        recommendations: AutoRecommendations {
            socket_buffer_floor: 25_165_824,
            somaxconn: 2048,
            netdev_max_backlog: 4096,
            nf_conntrack_max: Some(262_144),
            tcp_mtu_probing: 1,
            tcp_sack: 1,
            tcp_dsack: 1,
            tcp_no_metrics_save: 0,
            tcp_autocorking: 1,
        },
    };
    let rendered = render_managed_config(&profile);
    assert!(rendered.contains("nf_conntrack_max=262144\n"));
    assert!(rendered.contains("tcp_mtu_probing=1\n"));
}

use tcp_optimiser::profile::{auto_switch, settle_epoch};

fn sample_profile(epoch: u64) -> NetworkProfile {
    NetworkProfile {
        schema: 1,
        generated_epoch: epoch,
        auto_tuning_enabled: true,
        kernel_release: "6.6.30".to_string(),
        kmi: Some("6.6-android15-8".to_string()),
        arch: "aarch64".to_string(),
        memory_kib: Some(8 * 1_048_576),
        active_iface: Some("wlan0".to_string()),
        iface_mode: "Wi-Fi".to_string(),
        iface_mtu: Some(1500),
        proxy: ProxySnapshot {
            family: "none".to_string(),
            label: "\u{2014}".to_string(),
            mode: "none".to_string(),
            transparent: false,
            tproxy: false,
            virtual_iface: None,
        },
        available_algorithms: vec!["cubic".to_string(), "bbr".to_string()],
        bundled_algorithms: Vec::new(),
        bundled_qdiscs: Vec::new(),
        wifi_algorithm: Some("bbr".to_string()),
        cellular_algorithm: None,
        qdisc_policy: "per_algorithm".to_string(),
        recommendations: AutoRecommendations {
            socket_buffer_floor: 25_165_824,
            somaxconn: 2048,
            netdev_max_backlog: 4096,
            nf_conntrack_max: None,
            tcp_mtu_probing: 1,
            tcp_sack: 1,
            tcp_dsack: 1,
            tcp_no_metrics_save: 0,
            tcp_autocorking: 1,
        },
    }
}

#[test]
fn unchanged_profile_keeps_its_generation_time() {
    let stored = sample_profile(100);
    assert_eq!(settle_epoch(sample_profile(200), Some(&stored)).generated_epoch, 100);
    let mut changed = sample_profile(200);
    changed.iface_mtu = Some(1400);
    assert_eq!(settle_epoch(changed, Some(&stored)).generated_epoch, 200);
    assert_eq!(settle_epoch(sample_profile(200), None).generated_epoch, 200);
}

#[test]
fn auto_switch_accepts_on_off_words() {
    assert_eq!(auto_switch("on"), Some(true));
    assert_eq!(auto_switch("1"), Some(true));
    assert_eq!(auto_switch("false"), Some(false));
    assert_eq!(auto_switch("maybe"), None);
}

use tcp_optimiser::profile::recommended_socket_buffer_floor;

#[test]
fn buffer_floor_comes_from_meminfo_total() {
    assert_eq!(recommended_socket_buffer_floor(Some("MemTotal:       8388608 kB\nMemFree: 1 kB\n")), 25_165_824);
    assert_eq!(recommended_socket_buffer_floor(None), 16_777_216);
}
