use tcp_optimiser::sysctl::{
    advanced_sysctls, parse_advanced_overrides, parse_bounded_value, parse_sysctl_triplet,
    parse_u32_value, AdvancedOverride,
};
use tcp_optimiser::text::IntErrorKind;

#[test]
fn parses_exact_triplet() {
    assert_eq!(parse_sysctl_triplet("4096 87380 16777216").unwrap(), (4096, 87380, 16_777_216));
}

#[test]
fn rejects_partial_or_malformed_triplet() {
    assert!(parse_sysctl_triplet("4096 87380").is_err());
    assert!(parse_sysctl_triplet("4096 nope 16777216").is_err());
}

#[test]
fn bounded_overrides_reject_invalid_kernel_values() {
    assert_eq!(parse_bounded_value("2\n", 0, 3), Some(2));
    assert_eq!(parse_bounded_value("4", 0, 3), None);
    assert_eq!(parse_bounded_value("-1", 0, 3), None);
    assert_eq!(parse_bounded_value("1; reboot", 0, 3), None);
}

#[test]
fn advanced_sysctl_keys_and_paths_are_unique() {
    let table = advanced_sysctls();
    for (index, (key, path, min, max)) in table.iter().enumerate() {
        assert!(min <= max);
        assert!(path.starts_with("/proc/sys/"));
        assert!(!table[..index].iter().any(|(other, _, _, _)| other == key));
        assert!(!table[..index].iter().any(|(_, other, _, _)| other == path));
    }
}

#[test]
fn advanced_config_survives_boot_parse_and_rejects_bad_entries() {
    let content = "tcp_fin_timeout=30\ntcp_mtu_probing=2\ntcp_plb_idle_rehash_rounds=3\ntcp_plb_idle_retransmit_rounds=4\ntcp_sack=99\nbroken\n";
    let (overrides, failures) = parse_advanced_overrides(content);

    assert_eq!(
        overrides,
        vec![
            AdvancedOverride {
                key: "tcp_fin_timeout",
                path: "/proc/sys/net/ipv4/tcp_fin_timeout",
                value: 30,
            },
            AdvancedOverride {
                key: "tcp_mtu_probing",
                path: "/proc/sys/net/ipv4/tcp_mtu_probing",
                value: 2,
            },
            AdvancedOverride {
                key: "tcp_plb_idle_rehash_rounds",
                path: "/proc/sys/net/ipv4/tcp_plb_idle_rehash_rounds",
                value: 3,
            },
        ]
    );
    assert_eq!(failures.len(), 2);
    assert!(failures.iter().any(|entry| entry.contains("tcp_sack")));
    assert!(failures.iter().any(|entry| entry.contains("malformed")));
}

#[test]
fn numeric_sysctl_reads_as_u32_parse_does() {
    assert_eq!(parse_u32_value("150\n"), Ok(150));
    assert_eq!(parse_u32_value(" +7 "), Ok(7));
    assert_eq!(parse_u32_value("4294967295"), Ok(u32::MAX));
    assert_eq!(parse_u32_value("4294967296"), Err(IntErrorKind::PosOverflow));
    assert_eq!(parse_u32_value("\n"), Err(IntErrorKind::Empty));
    assert_eq!(parse_u32_value("1 2"), Err(IntErrorKind::InvalidDigit));
    assert_eq!(IntErrorKind::PosOverflow.message(), "number too large to fit in target type");
}
