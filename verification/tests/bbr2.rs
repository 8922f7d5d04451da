use tcp_optimiser::bbr2::contains_btf_name;

#[test]
fn finds_nul_terminated_btf_names_only() {
    let bytes: &[u8] =
        b"prefix\0tcp_sock\0rate_sample\0tcp_congestion_ops\0bpf_struct_ops_tcp_congestion_ops\0tcp_reno_ssthresh\0tcp_reno_cong_avoid\0tcp_reno_undo_cwnd\0suffix";
    assert!(contains_btf_name(bytes, b"tcp_sock"));
    assert!(contains_btf_name(bytes, b"rate_sample"));
    assert!(contains_btf_name(bytes, b"tcp_congestion_ops"));
    assert!(contains_btf_name(bytes, b"bpf_struct_ops_tcp_congestion_ops"));
    assert!(contains_btf_name(bytes, b"tcp_reno_ssthresh"));
    assert!(contains_btf_name(bytes, b"tcp_reno_cong_avoid"));
    assert!(contains_btf_name(bytes, b"tcp_reno_undo_cwnd"));
    assert!(!contains_btf_name(bytes, b"tcp"));
    assert!(!contains_btf_name(bytes, b"missing"));
}
