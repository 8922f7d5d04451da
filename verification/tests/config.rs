use tcp_optimiser::config::{get_algo_config, is_known_algorithm, is_known_qdisc, ALL_ALGOS};

#[test]
fn unknown_algorithm_uses_cubic_defaults() {
    let unknown = get_algo_config("not-an-algorithm");
    let cubic = get_algo_config("cubic");
    assert_eq!(unknown.qdisc, cubic.qdisc);
    assert_eq!(unknown.pacing_ca, cubic.pacing_ca);
    assert_eq!(unknown.pacing_ss, cubic.pacing_ss);
}

#[test]
fn kernel_names_are_allowlisted() {
    assert!(is_known_algorithm("bbr"));
    assert!(!is_known_algorithm("bbr\nreno"));
    assert!(is_known_qdisc("fq_codel"));
    assert!(!is_known_qdisc("fq;reboot"));
}

#[test]
fn every_algorithm_resolves_to_a_supported_policy_shape() {
    for algorithm in ALL_ALGOS {
        let config = get_algo_config(algorithm);
        assert!(
            is_known_qdisc(config.qdisc),
            "{algorithm} maps to unknown qdisc {}",
            config.qdisc
        );
        assert!(config.pacing_ca > 0, "{algorithm} has zero CA pacing");
        assert!(config.pacing_ss > 0, "{algorithm} has zero slow-start pacing");
        assert!(!config.desc.trim().is_empty(), "{algorithm} has no description");
    }
}

#[test]
fn documented_algorithms_and_qdiscs_are_allowlisted() {
    assert!(is_known_algorithm("vegas"));
    assert!(ALL_ALGOS.contains(&"vegas"));
    let vegas = get_algo_config("vegas");
    assert_eq!(vegas.qdisc, "fq_codel");
    assert_eq!((vegas.pacing_ca, vegas.pacing_ss), (120, 180));
    for qdisc in ["fq", "fq_codel", "cake", "pfifo_fast", "codel", "fq_pie", "pfifo"] {
        assert!(is_known_qdisc(qdisc), "{qdisc} is not allowlisted");
    }
    assert!(!is_known_qdisc("pfifo_fas"));
    assert!(!is_known_algorithm("westwood"));
}
