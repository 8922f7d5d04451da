use tcp_optimiser::build_info::current;

#[test]
fn local_build_has_explicit_provenance() {
    let info = current();
    assert_eq!(info.version, "3.0.0");
    assert!(!info.channel.is_empty());
    assert!(!info.source.is_empty());
    assert!(!info.revision.is_empty());
}

#[test]
fn build_environment_decides_provenance() {
    let local = tcp_optimiser::build_info::provenance(None, Some("official-github"), None, None).unwrap();
    assert_eq!(
        (local.channel.as_str(), local.source.as_str(), local.revision.as_str()),
        ("local-development", "local source tree", "uncommitted")
    );
    let official = tcp_optimiser::build_info::provenance(Some("1"), None, Some("me/fork"), Some("abc123")).unwrap();
    assert_eq!(official.channel, "official-github");
    assert_eq!(official.source, "https://github.com/me/fork");
    assert_eq!(official.revision, "abc123");
    assert_eq!(
        tcp_optimiser::build_info::watermark(&official),
        "TCP Optimiser | channel=official-github | source=https://github.com/me/fork | revision=abc123"
    );
    assert_eq!(
        tcp_optimiser::build_info::long_version(&official),
        "3.0.0\nBuild channel: official-github\nSource: https://github.com/me/fork\nRevision: abc123"
    );
    assert!(tcp_optimiser::build_info::provenance(Some("1"), Some("nightly"), None, None).is_none());
    let candidate = tcp_optimiser::build_info::provenance(Some("1"), Some("pull-request-candidate"), None, None).unwrap();
    assert_eq!((candidate.source.as_str(), candidate.revision.as_str()), ("https://github.com/Zhanfg/TCP_Optimiser_RS", "unknown"));
}
