use tcp_optimiser::proxy::{
    detect_proxy_from_text, parse_ims_registration, path_file_name, program_name, systemui_has_vowifi,
    ProxyType,
};

#[test]
fn distinguishes_mihomo_and_reads_full_command_lines() {
    assert_eq!(detect_proxy_from_text("mihomo\n"), ProxyType::Mihomo);
    assert_eq!(detect_proxy_from_text("clash\n"), ProxyType::Clash);
}

#[test]
fn recognizes_visible_vowifi_slot() {
    assert!(systemui_has_vowifi("slot='vowifi' visible user=0"));
    assert!(!systemui_has_vowifi("slot='wifi' visible user=0"));
}

#[test]
fn parses_only_the_ims_registration_field() {
    assert_eq!(parse_ims_registration("mImsRegistered=true"), Some(true));
    assert_eq!(parse_ims_registration("mImsRegistered=false other=true"), Some(false));
    assert_eq!(parse_ims_registration("mImsRegisteredState=true"), None);
}

#[test]
fn proxy_detection_ignores_letter_case() {
    assert_eq!(detect_proxy_from_text("/data/adb/MIHOMO -d /etc\n"), ProxyType::Mihomo);
    assert_eq!(detect_proxy_from_text("init\nzygote\n"), ProxyType::NotDetected);
}

#[test]
fn path_file_name_follows_path_components() {
    assert_eq!(path_file_name("/system/bin/clash"), Some("clash".to_string()));
    assert_eq!(path_file_name("data/mihomo/"), Some("mihomo".to_string()));
    assert_eq!(path_file_name("./sing-box"), Some("sing-box".to_string()));
    assert_eq!(path_file_name("bin/xray/."), Some("xray".to_string()));
    assert_eq!(path_file_name("bin/.."), None);
    assert_eq!(path_file_name("/"), None);
    assert_eq!(path_file_name("."), None);
    assert_eq!(path_file_name(""), None);
}

#[test]
fn program_name_reads_first_cmdline_argument() {
    assert_eq!(program_name(b"/data/adb/box/bin/clash\0-d\0/data\0"), Some("clash".to_string()));
    assert_eq!(program_name(b"v2ray"), Some("v2ray".to_string()));
    assert_eq!(program_name(b"\0ignored\0"), None);
    assert_eq!(program_name(b"/bin/\xff\xfe\0"), None);
    assert_eq!(program_name(b"/opt/../\0"), None);
}
