//! Whether BBRv2 can be provided on this kernel: natively, or as a BPF
//! struct_ops program when the kernel's BTF describes what one needs.
use vstd::prelude::*;

use vstd::utf8::encode_utf8;

use crate::sysctl::algo_available;
use crate::text::{owned, seq_has, words};

verus! {

#[derive(Debug, Clone, PartialEq, Eq)]
pub struct Bbr2ProviderStatus {
    pub provider: String,
    pub native_available: bool,
    pub bpf_struct_ops_candidate: bool,
    pub bpf_syscall_present: bool,
    pub vmlinux_btf: bool,
    pub tcp_congestion_ops_btf: bool,
    pub struct_ops_wrapper_btf: bool,
    pub tcp_sock_btf: bool,
    pub rate_sample_btf: bool,
    pub reno_kfuncs_btf: bool,
    pub system_libbpf_struct_ops_api: bool,
    pub zero_extra_loader_candidate: bool,
    pub kernel_release: String,
    pub note: String,
}

/// `name` followed by a NUL byte starts at position `i`.
pub open spec fn btf_name_at(bytes: Seq<u8>, name: Seq<u8>, i: int) -> bool {
    0 <= i && i + name.len() + 1 <= bytes.len() && bytes.subrange(i, i + name.len()) == name
        && bytes[i + name.len()] == 0
}

/// The string table holds `name` as a whole, NUL-terminated entry.
pub open spec fn has_btf_name(bytes: Seq<u8>, name: Seq<u8>) -> bool {
    name.len() > 0 && exists|i: int| #[trigger] btf_name_at(bytes, name, i)
}

/// Whether BTF data names a type or function: `name` immediately followed
/// by a NUL byte somewhere in the data.
pub fn contains_btf_name(bytes: &[u8], name: &[u8]) -> (r: bool)
    ensures
        r == has_btf_name(bytes@, name@),
{
    let n = name.len();
    if n == 0 {
        return false;
    }
    if bytes.len() <= n {
        assert forall|i: int| !#[trigger] btf_name_at(bytes@, name@, i) by {}
        return false;
    }
    let blen = bytes.len();
    let last = blen - n - 1;
    let mut i: usize = 0;
    loop
        invariant
            n == name@.len(),
            n > 0,
            bytes@.len() > n,
            last == bytes@.len() - n - 1,
            blen == bytes@.len(),
            i <= last,
            forall|j: int| 0 <= j < i ==> !#[trigger] btf_name_at(bytes@, name@, j),
        decreases last - i,
    {
        let mut k: usize = 0;
        assert(i + n < bytes@.len());
        while k < n && bytes[i + k] == name[k]
            invariant
                n == name@.len(),
                i <= last,
                last == bytes@.len() - n - 1,
                i + n < bytes@.len(),
                blen == bytes@.len(),
                k <= n,
                forall|m: int| 0 <= m < k ==> bytes@[i + m] == name@[m],
            decreases n - k,
        {
            k += 1;
        }
        if k == n && bytes[i + n] == 0 {
            assert(bytes@.subrange(i as int, i + n) =~= name@);
            assert(btf_name_at(bytes@, name@, i as int));
            return true;
        }
        proof {
            if btf_name_at(bytes@, name@, i as int) {
                if k < n {
                    assert(bytes@.subrange(i as int, i + n)[k as int] == bytes@[i + k]);
                }
            }
        }
        if i == last {
            assert forall|j: int| !#[trigger] btf_name_at(bytes@, name@, j) by {
                if 0 <= j < i {
                }
            }
            return false;
        }
        i += 1;
    }
}

/// What the probe read: the kernel's algorithm list (when readable), the
/// kernel release (when `uname` ran), whether `bpf(2)` exists, the kernel's
/// BTF (when readable) and whether the system libbpf has the struct_ops API.
#[derive(Debug, Clone)]
pub struct Bbr2Inputs {
    pub available_algorithms: Option<String>,
    pub kernel_release: Option<String>,
    pub bpf_syscall_present: bool,
    pub btf: Option<Vec<u8>>,
    pub system_libbpf_struct_ops_api: bool,
}

pub open spec fn btf_has(btf: Option<Vec<u8>>, name: Seq<u8>) -> bool {
    match btf {
        Some(b) => has_btf_name(b@, name),
        None => false,
    }
}

fn btf_has_exec(btf: &Option<Vec<u8>>, name: &[u8]) -> (r: bool)
    ensures
        r == btf_has(*btf, name@),
{
    match btf {
        Some(b) => contains_btf_name(b.as_slice(), name),
        None => false,
    }
}

/// The provider of BBRv2: native when the kernel lists it; a BPF
/// struct_ops candidate when the bpf syscall, the BTF and every structure
/// and reno kfunc it needs are present; otherwise unavailable.
pub fn probe(inp: &Bbr2Inputs) -> (r: Bbr2ProviderStatus)
    ensures
        r.native_available == match inp.available_algorithms {
            Some(raw) => seq_has(words(raw@), "bbr2"@),
            None => false,
        },
        r.kernel_release@ == match inp.kernel_release {
            Some(k) => k@,
            None => "unknown"@,
        },
        r.vmlinux_btf == inp.btf is Some,
        r.tcp_congestion_ops_btf == btf_has(inp.btf, encode_utf8("tcp_congestion_ops"@)),
        r.struct_ops_wrapper_btf == btf_has(
            inp.btf,
            encode_utf8("bpf_struct_ops_tcp_congestion_ops"@),
        ),
        r.tcp_sock_btf == btf_has(inp.btf, encode_utf8("tcp_sock"@)),
        r.rate_sample_btf == btf_has(inp.btf, encode_utf8("rate_sample"@)),
        r.reno_kfuncs_btf == (btf_has(inp.btf, encode_utf8("tcp_reno_ssthresh"@)) && btf_has(
            inp.btf,
            encode_utf8("tcp_reno_cong_avoid"@),
        ) && btf_has(inp.btf, encode_utf8("tcp_reno_undo_cwnd"@))),
        r.bpf_struct_ops_candidate == (!r.native_available && inp.bpf_syscall_present
            && r.vmlinux_btf && r.tcp_congestion_ops_btf && r.struct_ops_wrapper_btf
            && r.tcp_sock_btf && r.rate_sample_btf && r.reno_kfuncs_btf),
        r.zero_extra_loader_candidate == (r.bpf_struct_ops_candidate
            && inp.system_libbpf_struct_ops_api),
        r.provider@ == if r.native_available {
            "native"@
        } else if r.bpf_struct_ops_candidate {
            "bpf-struct-ops-candidate"@
        } else {
            "unavailable"@
        },
        r.note@ == if r.native_available {
            "Kernel already exposes bbr2; no bundled compiler or compatibility payload is needed."@
        } else if r.bpf_struct_ops_candidate {
            "Core BPF/BTF prerequisites are visible. A BBRv2-compatible struct_ops program still requires verifier and behavioral validation before it can be enabled."@
        } else {
            "Stock-kernel BBRv2 cannot be supplied as a standalone tcp_bbr2.ko because Google BBRv2 depends on TCP-core changes. Use native/patched-kernel BBRv2 or a validated BPF provider."@
        },
        r.bpf_syscall_present == inp.bpf_syscall_present,
        r.system_libbpf_struct_ops_api == inp.system_libbpf_struct_ops_api,
{
    let native_available = match &inp.available_algorithms {
        Some(raw) => algo_available(raw.as_str(), "bbr2"),
        None => false,
    };
    let kernel_release = match &inp.kernel_release {
        Some(k) => owned(k.as_str()),
        None => owned("unknown"),
    };
    let vmlinux_btf = inp.btf.is_some();
    let tcp_congestion_ops_btf = btf_has_exec(&inp.btf, "tcp_congestion_ops".as_bytes());
    let struct_ops_wrapper_btf = btf_has_exec(&inp.btf, "bpf_struct_ops_tcp_congestion_ops".as_bytes());
    let tcp_sock_btf = btf_has_exec(&inp.btf, "tcp_sock".as_bytes());
    let rate_sample_btf = btf_has_exec(&inp.btf, "rate_sample".as_bytes());
    let reno_kfuncs_btf = btf_has_exec(&inp.btf, "tcp_reno_ssthresh".as_bytes()) && btf_has_exec(
        &inp.btf,
        "tcp_reno_cong_avoid".as_bytes(),
    ) && btf_has_exec(&inp.btf, "tcp_reno_undo_cwnd".as_bytes());
    let bpf_struct_ops_candidate = !native_available && inp.bpf_syscall_present && vmlinux_btf
        && tcp_congestion_ops_btf && struct_ops_wrapper_btf && tcp_sock_btf && rate_sample_btf
        && reno_kfuncs_btf;
    let zero_extra_loader_candidate = bpf_struct_ops_candidate
        && inp.system_libbpf_struct_ops_api;
    let (provider, note) = if native_available {
        (
            "native",
            "Kernel already exposes bbr2; no bundled compiler or compatibility payload is needed.",
        )
    } else if bpf_struct_ops_candidate {
        (
            "bpf-struct-ops-candidate",
            "Core BPF/BTF prerequisites are visible. A BBRv2-compatible struct_ops program still requires verifier and behavioral validation before it can be enabled.",
        )
    } else {
        (
            "unavailable",
            "Stock-kernel BBRv2 cannot be supplied as a standalone tcp_bbr2.ko because Google BBRv2 depends on TCP-core changes. Use native/patched-kernel BBRv2 or a validated BPF provider.",
        )
    };
    Bbr2ProviderStatus {
        provider: owned(provider),
        native_available,
        bpf_struct_ops_candidate,
        bpf_syscall_present: inp.bpf_syscall_present,
        vmlinux_btf,
        tcp_congestion_ops_btf,
        struct_ops_wrapper_btf,
        tcp_sock_btf,
        rate_sample_btf,
        reno_kfuncs_btf,
        system_libbpf_struct_ops_api: inp.system_libbpf_struct_ops_api,
        zero_extra_loader_candidate,
        kernel_release,
        note: owned(note),
    }
}

} // verus!
