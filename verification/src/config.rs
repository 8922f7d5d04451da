//! The algorithm and queue-discipline tables of the module.
use vstd::prelude::*;

use crate::text::{owned, str_eq};

verus! {

/// Configuration for a single TCP congestion control algorithm.
#[derive(Debug, Clone)]
pub struct AlgoConfig {
    pub qdisc: &'static str,
    pub pacing_ca: u32,
    pub pacing_ss: u32,
    pub desc: &'static str,
}

/// Algorithms exposed by this build.
pub const ALL_ALGOS: [&'static str; 5] = ["bbr", "bbr3", "cubic", "reno", "vegas"];

/// Queue disciplines exposed by this build.
pub const KNOWN_QDISCS: [&'static str; 8] = [
    "fq",
    "fq_codel",
    "codel",
    "cake",
    "pie",
    "fq_pie",
    "pfifo_fast",
    "pfifo",
];

/// Default description for module.prop.
pub const DEFAULT_DESC: &'static str = "TCP Optimisations & update tcp_cong_algo based on interface";

/// Module id.
pub const MODULE_ID: &'static str = "tcp_optimiser";

/// The algorithms of the table.
pub open spec fn known_algorithm(s: Seq<char>) -> bool {
    s == "bbr"@ || s == "bbr3"@ || s == "cubic"@ || s == "reno"@ || s == "vegas"@
}

/// The queue disciplines of the table.
pub open spec fn known_qdisc(s: Seq<char>) -> bool {
    s == "fq"@ || s == "fq_codel"@ || s == "codel"@ || s == "cake"@ || s == "pie"@ || s
        == "fq_pie"@ || s == "pfifo_fast"@ || s == "pfifo"@
}

/// The table entry `(qdisc, pacing_ca, pacing_ss, description)` of an
/// algorithm; every name outside the table gets the CUBIC entry.
pub open spec fn algo_entry(algo: Seq<char>) -> (Seq<char>, u32, u32, Seq<char>) {
    if algo == "bbr"@ {
        ("fq"@, 200u32, 300u32, "BBRv1 - kernel native model-based congestion control"@)
    } else if algo == "bbr3"@ {
        ("fq"@, 220u32, 320u32, "BBRv3 - bundled PJZ110 kernel module"@)
    } else if algo == "reno"@ {
        ("fq_codel"@, 150u32, 200u32, "Reno - kernel native classic congestion control"@)
    } else if algo == "vegas"@ {
        ("fq_codel"@, 120u32, 180u32, "Vegas - kernel native delay-based congestion control"@)
    } else {
        ("fq_codel"@, 150u32, 200u32, "CUBIC - kernel native default congestion control"@)
    }
}

pub open spec fn config_matches(c: AlgoConfig, e: (Seq<char>, u32, u32, Seq<char>)) -> bool {
    c.qdisc@ == e.0 && c.pacing_ca == e.1 && c.pacing_ss == e.2 && c.desc@ == e.3
}

/// Get the configuration for a specific algorithm.
/// Returns the CUBIC configuration for unknown algorithms.
pub fn get_algo_config(algo: &str) -> (r: AlgoConfig)
    ensures
        config_matches(r, algo_entry(algo@)),
{
    if str_eq(algo, "bbr") {
        AlgoConfig {
            qdisc: "fq",
            pacing_ca: 200,
            pacing_ss: 300,
            desc: "BBRv1 - kernel native model-based congestion control",
        }
    } else if str_eq(algo, "bbr3") {
        AlgoConfig {
            qdisc: "fq",
            pacing_ca: 220,
            pacing_ss: 320,
            desc: "BBRv3 - bundled PJZ110 kernel module",
        }
    } else if str_eq(algo, "reno") {
        AlgoConfig {
            qdisc: "fq_codel",
            pacing_ca: 150,
            pacing_ss: 200,
            desc: "Reno - kernel native classic congestion control",
        }
    } else if str_eq(algo, "vegas") {
        AlgoConfig {
            qdisc: "fq_codel",
            pacing_ca: 120,
            pacing_ss: 180,
            desc: "Vegas - kernel native delay-based congestion control",
        }
    } else {
        AlgoConfig {
            qdisc: "fq_codel",
            pacing_ca: 150,
            pacing_ss: 200,
            desc: "CUBIC - kernel native default congestion control",
        }
    }
}

/// Module path under /data/adb/modules/ of the installed module.
pub fn live_module_dir() -> (r: String)
    ensures
        r@ == "/data/adb/modules/tcp_optimiser"@,
{
    owned("/data/adb/modules/tcp_optimiser")
}

pub fn is_known_algorithm(value: &str) -> (r: bool)
    ensures
        r == known_algorithm(value@),
{
    str_eq(value, "bbr") || str_eq(value, "bbr3") || str_eq(value, "cubic") || str_eq(
        value,
        "reno",
    ) || str_eq(value, "vegas")
}

pub fn is_known_qdisc(value: &str) -> (r: bool)
    ensures
        r == known_qdisc(value@),
{
    str_eq(value, "fq") || str_eq(value, "fq_codel") || str_eq(value, "codel") || str_eq(
        value,
        "cake",
    ) || str_eq(value, "pie") || str_eq(value, "fq_pie") || str_eq(value, "pfifo_fast") || str_eq(
        value,
        "pfifo",
    )
}

/// Every algorithm of the table resolves to a known queue discipline and
/// non-zero pacing ratios.
pub proof fn lemma_table_is_consistent(algo: Seq<char>)
    ensures
        known_qdisc(algo_entry(algo).0),
        algo_entry(algo).1 > 0,
        algo_entry(algo).2 > 0,
        algo_entry(algo).3.len() > 0,
{
    reveal_strlit("BBRv1 - kernel native model-based congestion control");
    reveal_strlit("BBRv3 - bundled PJZ110 kernel module");
    reveal_strlit("Reno - kernel native classic congestion control");
    reveal_strlit("Vegas - kernel native delay-based congestion control");
    reveal_strlit("CUBIC - kernel native default congestion control");
}

/// An unknown algorithm resolves exactly as CUBIC does.
pub proof fn lemma_unknown_algorithm_is_cubic(algo: Seq<char>)
    requires
        !known_algorithm(algo),
    ensures
        algo_entry(algo) == algo_entry("cubic"@),
{
    reveal_strlit("cubic");
    reveal_strlit("bbr");
    reveal_strlit("bbr3");
    reveal_strlit("reno");
    reveal_strlit("vegas");
    assert("cubic"@.len() == 5);
    assert("cubic"@ != "bbr"@);
    assert("cubic"@[0] != "bbr3"@[0]);
    assert("cubic"@ != "bbr3"@);
    assert("cubic"@[0] != "reno"@[0]);
    assert("cubic"@ != "reno"@);
    assert("cubic"@[0] != "vegas"@[0]);
    assert("cubic"@ != "vegas"@);
}

} // verus!
