use tcp_optimiser::kernel_module::{derive_kmi, safe_relative_path};

#[test]
fn derives_android_gki_family() {
    assert_eq!(
        derive_kmi("6.6.30-android15-8-g123456789abc-ab12345678"),
        Some("6.6-android15-8".to_string())
    );
    assert_eq!(
        derive_kmi("5.15.153-android13-8-00001-gdeadbeef"),
        Some("5.15-android13-8".to_string())
    );
    assert_eq!(derive_kmi("6.6.30-custom"), None);
}

#[test]
fn rejects_manifest_path_traversal() {
    assert!(safe_relative_path("../tcp_bbr3.ko").is_err());
    assert!(safe_relative_path("/data/local/tmp/tcp_bbr3.ko").is_err());
    assert!(safe_relative_path("android15-6.6/aarch64/tcp_bbr3.ko").is_ok());
}

use tcp_optimiser::kernel_module::{
    cleared_unavailable, marked_unavailable, marker_text, module_entry, module_index, module_listed,
    ModuleEntry, ModuleError,
};

#[test]
fn unavailable_marker_is_sorted_and_deduplicated() {
    let marked = marked_unavailable(Some("cubic bbr3 nonsense\n"), "bbr").unwrap();
    assert_eq!(marked, vec!["bbr".to_string(), "bbr3".to_string(), "cubic".to_string()]);
    assert_eq!(marker_text(&marked), "bbr bbr3 cubic\n");
    assert_eq!(marked_unavailable(None, "bbr").unwrap(), vec!["bbr".to_string()]);
    assert_eq!(
        marked_unavailable(None, "bbr;reboot"),
        Err(ModuleError::UnknownAlgorithm("bbr;reboot".to_string()))
    );
}

#[test]
fn clearing_unavailable_algorithm_reports_remaining_ones() {
    assert_eq!(cleared_unavailable(Some("cubic bbr\n"), "bbr"), Some(vec!["cubic".to_string()]));
    assert_eq!(cleared_unavailable(Some("bbr\n"), "bbr"), Some(Vec::new()));
    assert_eq!(cleared_unavailable(Some("cubic\n"), "bbr"), None);
    assert_eq!(cleared_unavailable(None, "bbr"), None);
}

#[test]
fn proc_modules_lookup_matches_first_word_only() {
    let proc_modules = "tcp_bbr 20480 0 - Live 0x0\nsch_fq 16384 1 tcp_bbr3, Live 0x0\n";
    assert!(module_listed(proc_modules, "tcp_bbr"));
    assert!(module_listed(proc_modules, "sch_fq"));
    assert!(!module_listed(proc_modules, "tcp_bbr3"));
    assert!(!module_listed("", "tcp_bbr"));
}

fn entry(name: &str, kmi: &str, file: &str) -> ModuleEntry {
    ModuleEntry {
        name: name.to_string(),
        kmi: kmi.to_string(),
        arch: "aarch64".to_string(),
        file: file.to_string(),
        sha256: "00".repeat(32),
    }
}

#[test]
fn module_index_keeps_present_modules_of_this_kernel() {
    let modules = vec![
        entry("tcp_bbr3", "6.6-android15-8", "android15-6.6/aarch64/tcp_bbr3.ko"),
        entry("sch_cake", "6.6-android15-8", "android15-6.6/aarch64/sch_cake.ko"),
        entry("tcp_bbr3", "6.1-android14-11", "../escape.ko"),
    ];
    let present = vec![true, false, true];
    let index = module_index(1, &modules, Some("6.6-android15-8"), "aarch64", &present)
        .unwrap()
        .unwrap();
    assert_eq!(index.len(), 1);
    assert_eq!(index[0].name, "tcp_bbr3");
    assert_eq!(module_entry(&index, "tcp_bbr3"), Some(0));
    assert_eq!(module_entry(&index, "sch_cake"), None);
    assert!(module_index(1, &modules, None, "aarch64", &present).unwrap().is_none());
    assert_eq!(
        module_index(2, &modules, Some("6.6-android15-8"), "aarch64", &present).err(),
        Some("unsupported kernel module manifest schema 2".to_string())
    );
    assert_eq!(
        module_index(1, &modules, Some("6.1-android14-11"), "aarch64", &present).err(),
        Some("unsafe kernel module path".to_string())
    );
}

#[test]
fn bundled_algorithms_are_appended_unless_blocked_or_listed() {
    let s = |v: &[&str]| v.iter().map(|x| x.to_string()).collect::<Vec<String>>();
    let offered = tcp_optimiser::kernel_module::augment_algorithms(
        s(&["cubic", "bbr"]),
        &s(&["bbr2"]),
        &s(&["bbr", "bbr2", "bbr3", "westwood"]),
    );
    assert_eq!(offered, s(&["cubic", "bbr", "bbr3", "westwood"]));
}

#[test]
fn unavailable_qdisc_marker_keeps_known_names_sorted_once() {
    let recorded = tcp_optimiser::kernel_module::unavailable_qdiscs(Some("fq_pie bogus cake\n"));
    assert_eq!(recorded, vec!["fq_pie".to_string(), "cake".to_string()]);
    let marked = tcp_optimiser::kernel_module::marked_qdisc_unavailable(Some("fq_pie cake\n"), "cake").unwrap();
    assert_eq!(marked, vec!["cake".to_string(), "fq_pie".to_string()]);
    assert!(tcp_optimiser::kernel_module::marked_qdisc_unavailable(None, "sfq;reboot").is_err());
    let cleared = tcp_optimiser::kernel_module::cleared_qdisc_unavailable(Some("fq_pie cake\n"), "cake");
    assert_eq!(cleared, Some(vec!["fq_pie".to_string()]));
    assert_eq!(tcp_optimiser::kernel_module::cleared_qdisc_unavailable(Some("fq_pie\n"), "cake"), None);
}
